//! Calls into the standard library and into the crates that fold case and
//! match regular expressions.

use vstd::prelude::*;
use vstd::string::*;
use vstd::utf8::*;

verus! {

/// The text that `caseless::default_case_fold_str` gives.
pub uninterp spec fn case_folded(text: Seq<char>) -> Seq<char>;

/// Whether `regex::RegexBuilder::build` accepts a pattern.
pub uninterp spec fn pattern_compiles(pattern: Seq<char>, ignore_case: bool) -> bool;

/// Whether `regex::Regex::is_match` finds a pattern in a text.
pub uninterp spec fn pattern_found(
    pattern: Seq<char>,
    ignore_case: bool,
    text: Seq<char>,
) -> bool;

/// The text that the standard `Debug` of `str` gives.
pub uninterp spec fn debug_quoted(text: Seq<char>) -> Seq<char>;

/// Read bytes as text.
///
/// Calls `std::str::from_utf8`. It is trusted to give text exactly for bytes
/// that are valid UTF-8, and to keep those bytes.
#[verifier::external_body]
pub(crate) fn read_utf8(bytes: &[u8]) -> (text: Option<&str>)
    ensures
        text is Some <==> valid_utf8(bytes@),
        text is Some ==> text->0.spec_bytes() == bytes@,
{
    std::str::from_utf8(bytes).ok()
}

/// Fold the case of a text.
///
/// Calls `caseless::default_case_fold_str`. It is trusted to be a function of
/// the text; what the folding of a text is stays unsaid.
#[verifier::external_body]
pub(crate) fn fold_case(text: &str) -> (folded: String)
    ensures
        folded@ == case_folded(text@),
{
    caseless::default_case_fold_str(text)
}

/// Report whether a pattern compiles.
///
/// Calls `regex::RegexBuilder::build` on the pattern, after
/// `RegexBuilder::case_insensitive`. It is trusted to be a function of the
/// pattern and the flag; which patterns compile stays unsaid.
#[verifier::external_body]
pub(crate) fn compiles(pattern: &str, ignore_case: bool) -> (accepted: bool)
    ensures
        accepted == pattern_compiles(pattern@, ignore_case),
{
    regex::RegexBuilder::new(pattern).case_insensitive(ignore_case).build().is_ok()
}

/// Report whether a pattern compiles and matches anywhere in a text.
///
/// Calls `regex::Regex::is_match` on the compiled pattern. It is trusted to be
/// a function of the pattern, the flag and the text, and to find nothing where
/// the pattern does not compile; what a pattern matches stays unsaid.
#[verifier::external_body]
pub(crate) fn finds(pattern: &str, ignore_case: bool, text: &str) -> (found: bool)
    ensures
        found == pattern_found(pattern@, ignore_case, text@),
        found ==> pattern_compiles(pattern@, ignore_case),
{
    regex::RegexBuilder::new(pattern)
        .case_insensitive(ignore_case)
        .build()
        .is_ok_and(|compiled| compiled.is_match(text))
}

/// Quote a text the way `Debug` does.
///
/// Calls the standard `Debug` of `str`. It is trusted to be a function of the
/// text; which characters it escapes stays unsaid.
#[verifier::external_body]
pub(crate) fn quote(text: &str) -> (quoted: String)
    ensures
        quoted@ == debug_quoted(text@),
{
    format!("{:?}", text)
}

} // verus!
