//! The releases of tmux.

use vstd::prelude::*;

use crate::decimal;
use crate::text;

verus! {

/// What follows the number of a release.
#[derive(Clone, Copy, Debug, PartialEq, Eq, Structural)]
pub enum ReleaseSuffix {
    /// A candidate for the release.
    Candidate(u32),
    /// The release itself.
    Final,
    /// A later patch of the release, named by a lower-case letter.
    Letter(u8),
}

/// A numbered release.
#[derive(Clone, Copy, Debug, PartialEq, Eq, Structural)]
pub struct ReleaseVersion {
    pub major: u32,
    pub minor: u32,
    pub suffix: ReleaseSuffix,
}

impl ReleaseSuffix {
    /// Where a suffix stands among the suffixes of one release.
    pub open spec fn rank(self) -> (int, int) {
        match self {
            ReleaseSuffix::Candidate(number) => (0, number as int),
            ReleaseSuffix::Final => (1, 0),
            ReleaseSuffix::Letter(letter) => (2, letter as int),
        }
    }

    /// Report whether a suffix comes before another: candidates by number, the
    /// release, and patches by letter.
    pub fn is_before(self, other: ReleaseSuffix) -> (before: bool)
        ensures
            before == (self.rank().0 < other.rank().0 || (self.rank().0 == other.rank().0
                && self.rank().1 < other.rank().1)),
    {
        match (self, other) {
            (ReleaseSuffix::Candidate(left), ReleaseSuffix::Candidate(right)) => left < right,
            (ReleaseSuffix::Candidate(_), _) => true,
            (ReleaseSuffix::Final, ReleaseSuffix::Letter(_)) => true,
            (ReleaseSuffix::Final, _) => false,
            (ReleaseSuffix::Letter(left), ReleaseSuffix::Letter(right)) => left < right,
            (ReleaseSuffix::Letter(_), _) => false,
        }
    }
}

impl ReleaseVersion {
    /// Whether a release comes before another.
    pub open spec fn before(self, other: ReleaseVersion) -> bool {
        if self.major != other.major {
            self.major < other.major
        } else if self.minor != other.minor {
            self.minor < other.minor
        } else {
            self.suffix.rank().0 < other.suffix.rank().0 || (self.suffix.rank().0
                == other.suffix.rank().0 && self.suffix.rank().1 < other.suffix.rank().1)
        }
    }

    /// Name a release.
    pub fn new(major: u32, minor: u32, suffix: ReleaseSuffix) -> (release: ReleaseVersion)
        ensures
            release == (ReleaseVersion { major, minor, suffix }),
    {
        ReleaseVersion { major, minor, suffix }
    }

    /// Report whether a release comes before another.
    pub fn is_before(self, other: ReleaseVersion) -> (before: bool)
        ensures
            before == self.before(other),
    {
        if self.major != other.major {
            self.major < other.major
        } else if self.minor != other.minor {
            self.minor < other.minor
        } else {
            self.suffix.is_before(other.suffix)
        }
    }
}

/// Releases are in a total order: of two releases exactly one comes first, or
/// they are one release.
pub proof fn law_releases_are_ordered(left: ReleaseVersion, right: ReleaseVersion)
    ensures
        !left.before(left),
        !(left.before(right) && right.before(left)),
        left == right || left.before(right) || right.before(left),
{
}

/// The order of releases is transitive.
pub proof fn law_release_order_is_transitive(
    first: ReleaseVersion,
    second: ReleaseVersion,
    third: ReleaseVersion,
)
    requires
        first.before(second),
        second.before(third),
    ensures
        first.before(third),
{
}

/// The version of a running tmux.
#[derive(Clone, Copy, Debug, PartialEq, Eq, Structural)]
pub enum TmuxVersion {
    /// A numbered release.
    Release(ReleaseVersion),
    /// A build between releases, which proves no release.
    Development,
}

/// Output of `tmux -V` that names no version.
#[derive(Clone, Copy, Debug, PartialEq, Eq, Structural)]
pub struct VersionError;

/// How many digits a byte string starts with.
pub open spec fn leading_digits(bytes: Seq<u8>) -> nat
    decreases bytes.len(),
{
    if bytes.len() > 0 && 48 <= bytes[0] <= 57 {
        1 + leading_digits(bytes.skip(1))
    } else {
        0
    }
}

/// The number that a byte string starts with.
pub open spec fn leading_number(bytes: Seq<u8>) -> nat {
    decimal::digits_value(bytes.take(leading_digits(bytes) as int))
}

/// The suffix that bytes denote: nothing, a lower-case letter, or `-rc` and the
/// number of the candidate.
pub open spec fn suffix_denoted(bytes: Seq<u8>) -> Option<ReleaseSuffix> {
    if bytes.len() == 0 {
        Some(ReleaseSuffix::Final)
    } else if bytes.len() == 1 && 97 <= bytes[0] <= 122 {
        Some(ReleaseSuffix::Letter(bytes[0]))
    } else if bytes.len() >= 3 && bytes.take(3) == text::ascii("-rc"@) {
        let number = bytes.skip(3);
        if number.len() == 0 {
            Some(ReleaseSuffix::Candidate(0))
        } else if leading_digits(number) == number.len() && leading_number(number) <= u32::MAX {
            Some(ReleaseSuffix::Candidate(leading_number(number) as u32))
        } else {
            None
        }
    } else {
        None
    }
}

/// The release that bytes denote: two numbers with a dot between them, and a
/// suffix.
pub open spec fn release_denoted(bytes: Seq<u8>) -> Option<ReleaseVersion> {
    let first = leading_digits(bytes) as int;
    let rest = bytes.skip(first + 1);
    let second = leading_digits(rest) as int;
    if first == 0 || first >= bytes.len() || bytes[first] != 46 || second == 0
        || leading_number(bytes) > u32::MAX || leading_number(rest) > u32::MAX {
        None
    } else {
        match suffix_denoted(rest.skip(second)) {
            Some(suffix) => Some(
                ReleaseVersion {
                    major: leading_number(bytes) as u32,
                    minor: leading_number(rest) as u32,
                    suffix,
                },
            ),
            None => None,
        }
    }
}

/// The version that bytes denote: a release, or one of the names of
/// development builds.
pub open spec fn version_denoted(bytes: Seq<u8>) -> Option<TmuxVersion> {
    if bytes == text::ascii("master"@) || (bytes.len() >= 5 && bytes.take(5) == text::ascii(
        "next-"@,
    )) {
        Some(TmuxVersion::Development)
    } else {
        match release_denoted(bytes) {
            Some(release) => Some(TmuxVersion::Release(release)),
            None => None,
        }
    }
}

/// Output without the newline that it may end in.
pub open spec fn without_newline(bytes: Seq<u8>) -> Seq<u8> {
    if bytes.len() > 0 && bytes.last() == 10 {
        bytes.drop_last()
    } else {
        bytes
    }
}

/// The version that the output of `tmux -V` names.
pub open spec fn version_printed(output: Seq<u8>) -> Option<TmuxVersion> {
    let line = without_newline(output);
    if line.len() >= 5 && line.take(5) == text::ascii("tmux "@) {
        version_denoted(line.skip(5))
    } else {
        None
    }
}

/// Count the digits that bytes start with, and read their number as far as it
/// fits.
fn read_number(bytes: &[u8], start: usize) -> (read: (usize, Option<u32>))
    requires
        start <= bytes@.len(),
    ensures
        ({
            let rest = bytes@.skip(start as int);
            &&& read.0 == leading_digits(rest)
            &&& start + read.0 <= bytes@.len()
            &&& match read.1 {
                Some(number) => leading_number(rest) == number,
                None => leading_number(rest) > u32::MAX,
            }
        }),
{
    let ghost rest = bytes@.skip(start as int);
    let mut count: usize = 0;
    let mut value: Option<u32> = Some(0);
    assert(rest.take(0) =~= Seq::<u8>::empty());
    assert(rest.skip(0) =~= rest);
    while count < bytes.len() - start && 48 <= bytes[start + count] && bytes[start + count] <= 57
        invariant
            start + count <= bytes@.len(),
            rest == bytes@.skip(start as int),
            leading_digits(rest) == count + leading_digits(rest.skip(count as int)),
            match value {
                Some(number) => decimal::digits_value(rest.take(count as int)) == number,
                None => decimal::digits_value(rest.take(count as int)) > u32::MAX,
            },
        decreases bytes@.len() - start - count,
    {
        let byte = bytes[start + count];
        proof {
            let behind = rest.skip(count as int);
            assert(behind[0] == byte);
            assert(behind.skip(1) =~= rest.skip(count + 1));
            let longer = rest.take(count + 1);
            assert(longer.drop_last() =~= rest.take(count as int));
            assert(longer.last() == byte);
        }
        value = match value {
            Some(number) => {
                let next: u64 = number as u64 * 10 + (byte - 48) as u64;
                if next <= u32::MAX as u64 {
                    Some(next as u32)
                } else {
                    None
                }
            },
            None => None,
        };
        count += 1;
    }
    proof {
        let behind = rest.skip(count as int);
        assert(behind.len() > 0 ==> behind[0] == bytes@[start + count]);
    }
    (count, value)
}

/// Report whether bytes hold a text at a position.
fn holds(bytes: &[u8], start: usize, expected: &str) -> (found: bool)
    requires
        start <= bytes@.len(),
        vstd::utf8::is_ascii_chars(expected@),
    ensures
        found == (bytes@.len() - start >= expected@.len() && bytes@.skip(start as int).take(
            expected@.len() as int,
        ) == text::ascii(expected@)),
{
    let wanted = expected.as_bytes();
    proof {
        text::lemma_ascii_encoding(expected@);
    }
    if bytes.len() - start < wanted.len() {
        return false;
    }
    let part = vstd::slice::slice_subrange(bytes, start, start + wanted.len());
    assert(part@ =~= bytes@.skip(start as int).take(expected@.len() as int));
    text::bytes_eq(part, wanted)
}

/// Read the suffix of a release.
fn read_suffix(bytes: &[u8], start: usize) -> (suffix: Option<ReleaseSuffix>)
    requires
        start <= bytes@.len(),
    ensures
        suffix == suffix_denoted(bytes@.skip(start as int)),
{
    let ghost rest = bytes@.skip(start as int);
    let length: usize = bytes.len() - start;
    if length == 0 {
        return Some(ReleaseSuffix::Final);
    }
    assert(rest[0] == bytes@[start as int]);
    if length == 1 && 97 <= bytes[start] && bytes[start] <= 122 {
        return Some(ReleaseSuffix::Letter(bytes[start]));
    }
    proof {
        reveal_strlit("-rc");
    }
    if !holds(bytes, start, "-rc") {
        return None;
    }
    assert(bytes@.skip(start + 3) =~= rest.skip(3));
    if length == 3 {
        return Some(ReleaseSuffix::Candidate(0));
    }
    let (count, number) = read_number(bytes, start + 3);
    if count != length - 3 {
        return None;
    }
    match number {
        Some(number) => Some(ReleaseSuffix::Candidate(number)),
        None => None,
    }
}

/// Read a release.
fn read_release(bytes: &[u8], start: usize) -> (release: Option<ReleaseVersion>)
    requires
        start <= bytes@.len(),
    ensures
        release == release_denoted(bytes@.skip(start as int)),
{
    let ghost all = bytes@.skip(start as int);
    let (first, major) = read_number(bytes, start);
    if first == 0 || first >= bytes.len() - start {
        return None;
    }
    assert(all[first as int] == bytes@[start + first]);
    if bytes[start + first] != 46 {
        return None;
    }
    assert(bytes@.skip(start + first + 1) =~= all.skip(first + 1));
    let (second, minor) = read_number(bytes, start + first + 1);
    if second == 0 {
        return None;
    }
    assert(bytes@.skip(start + first + 1 + second) =~= all.skip(first + 1).skip(second as int));
    let suffix = read_suffix(bytes, start + first + 1 + second);
    match (major, minor, suffix) {
        (Some(major), Some(minor), Some(suffix)) => Some(
            ReleaseVersion { major, minor, suffix },
        ),
        _ => None,
    }
}

impl TmuxVersion {
    /// Read the version from the output of `tmux -V`.
    ///
    /// # Errors
    ///
    /// [`VersionError`] where the output names no version.
    pub fn parse_output(output: &[u8]) -> (version: Result<TmuxVersion, VersionError>)
        ensures
            match version {
                Ok(version) => version_printed(output@) == Some(version),
                Err(_) => version_printed(output@) is None,
            },
    {
        let length: usize = if output.len() > 0 && output[output.len() - 1] == 10 {
            output.len() - 1
        } else {
            output.len()
        };
        let line = vstd::slice::slice_subrange(output, 0, length);
        proof {
            reveal_strlit("tmux ");
            reveal_strlit("master");
            reveal_strlit("next-");
            assert(line@ =~= without_newline(output@));
            assert(line@.skip(0) =~= line@);
        }
        if !holds(line, 0, "tmux ") {
            return Err(VersionError);
        }
        let ghost named = line@.skip(5);
        assert(named.len() == 6 ==> named.take(6) =~= named);
        if line.len() - 5 == 6 && holds(line, 5, "master") {
            assert(named == text::ascii("master"@));
            return Ok(TmuxVersion::Development);
        }
        assert(named != text::ascii("master"@));
        if holds(line, 5, "next-") {
            return Ok(TmuxVersion::Development);
        }
        match read_release(line, 5) {
            Some(release) => Ok(TmuxVersion::Release(release)),
            None => Err(VersionError),
        }
    }

    /// The numbered release, where the version proves one.
    pub fn release(&self) -> (release: Option<ReleaseVersion>)
        ensures
            release == self.proven(),
    {
        match self {
            TmuxVersion::Release(release) => Some(*release),
            TmuxVersion::Development => None,
        }
    }

    /// The numbered release that the version proves, in contracts.
    pub open spec fn proven(self) -> Option<ReleaseVersion> {
        match self {
            TmuxVersion::Release(release) => Some(release),
            TmuxVersion::Development => None,
        }
    }
}

/// The order of releases is decided by the major number, where that is equal by
/// the minor number, and where both are equal by the suffix: candidates by
/// their number, then the release, then patches by their letter.
pub proof fn law_releases_are_ordered_by_their_parts(
    left: ReleaseVersion,
    right: ReleaseVersion,
    one: u32,
    other: u32,
    letter: u8,
    next: u8,
)
    ensures
        left.major < right.major ==> left.before(right),
        left.major == right.major && left.minor < right.minor ==> left.before(right),
        left.major == right.major && left.minor == right.minor ==> {
            &&& left.suffix == ReleaseSuffix::Candidate(one) && right.suffix
                == ReleaseSuffix::Candidate(other) ==> (left.before(right) <==> one < other)
            &&& left.suffix is Candidate && right.suffix is Final ==> left.before(right)
            &&& left.suffix is Candidate && right.suffix is Letter ==> left.before(right)
            &&& left.suffix is Final && right.suffix is Letter ==> left.before(right)
            &&& left.suffix == ReleaseSuffix::Letter(letter) && right.suffix
                == ReleaseSuffix::Letter(next) ==> (left.before(right) <==> letter < next)
        },
{
}

/// The bytes that a suffix is printed as.
pub open spec fn suffix_spelled(suffix: ReleaseSuffix) -> Seq<u8> {
    match suffix {
        ReleaseSuffix::Final => Seq::empty(),
        ReleaseSuffix::Letter(letter) => seq![letter],
        ReleaseSuffix::Candidate(number) => text::ascii("-rc"@) + text::ascii(
            decimal::decimal(number as nat),
        ),
    }
}

proof fn lemma_leading_digits(digits: Seq<u8>, rest: Seq<u8>)
    requires
        decimal::all_digits(digits),
        rest.len() == 0 || rest[0] < 48 || rest[0] > 57,
    ensures
        leading_digits(digits + rest) == digits.len(),
        leading_number(digits + rest) == decimal::digits_value(digits),
    decreases digits.len(),
{
    let whole = digits + rest;
    assert(whole.take(digits.len() as int) =~= digits);
    if digits.len() > 0 {
        assert(whole[0] == digits[0]);
        assert forall|i: int| 0 <= i < digits.skip(1).len() implies 48 <= #[trigger] digits.skip(
            1,
        )[i] <= 57 by {
            assert(digits.skip(1)[i] == digits[i + 1]);
        }
        lemma_leading_digits(digits.skip(1), rest);
        assert(whole.skip(1) =~= digits.skip(1) + rest);
    } else {
        assert(whole =~= rest);
    }
}

proof fn lemma_suffix_is_read_back(suffix: ReleaseSuffix)
    requires
        suffix matches ReleaseSuffix::Letter(letter) ==> 97 <= letter <= 122,
    ensures
        suffix_denoted(suffix_spelled(suffix)) == Some(suffix),
        suffix_spelled(suffix).len() > 0 ==> {
            &&& suffix_spelled(suffix)[0] < 48 || suffix_spelled(suffix)[0] > 57
            &&& suffix_spelled(suffix).last() != 10
        },
{
    reveal_strlit("-rc");
    let spelled = suffix_spelled(suffix);
    match suffix {
        ReleaseSuffix::Final => {},
        ReleaseSuffix::Letter(letter) => {
            assert(spelled[0] == letter);
        },
        ReleaseSuffix::Candidate(number) => {
            let digits = text::ascii(decimal::decimal(number as nat));
            decimal::lemma_notation_digits(number as nat);
            assert(spelled.take(3) =~= text::ascii("-rc"@));
            assert(spelled.skip(3) =~= digits);
            assert(spelled[0] == text::ascii("-rc"@)[0]);
            lemma_leading_digits(digits, Seq::empty());
            assert(digits + Seq::<u8>::empty() =~= digits);
            assert(spelled.last() == digits[digits.len() - 1]);
        },
    }
}

proof fn lemma_release_is_read_back(release: ReleaseVersion)
    requires
        release.suffix matches ReleaseSuffix::Letter(letter) ==> 97 <= letter <= 122,
    ensures
        ({
            let spelling = text::ascii(decimal::decimal(release.major as nat)) + (seq![46u8] + (
            text::ascii(decimal::decimal(release.minor as nat)) + suffix_spelled(release.suffix)));
            &&& release_denoted(spelling) == Some(release)
            &&& 48 <= spelling[0] <= 57
            &&& spelling.len() > 0
            &&& spelling.last() != 10
        }),
{
    let major = text::ascii(decimal::decimal(release.major as nat));
    let minor = text::ascii(decimal::decimal(release.minor as nat));
    let suffix = suffix_spelled(release.suffix);
    decimal::lemma_notation_digits(release.major as nat);
    decimal::lemma_notation_digits(release.minor as nat);
    lemma_suffix_is_read_back(release.suffix);
    let behind = minor + suffix;
    let spelling = major + (seq![46u8] + behind);
    lemma_leading_digits(major, seq![46u8] + behind);
    assert(spelling[major.len() as int] == 46);
    assert(spelling.skip(major.len() as int + 1) =~= behind);
    lemma_leading_digits(minor, suffix);
    assert(behind.skip(minor.len() as int) =~= suffix);
    assert(spelling[0] == major[0]);
    if suffix.len() > 0 {
        assert(spelling.last() == suffix.last());
    } else {
        assert(spelling.last() == minor[minor.len() - 1]);
    }
}

/// What tmux prints of a release is read as the release: its numbers, and a
/// letter or the number of a candidate behind them, with a line feed or
/// without.
pub proof fn law_printed_releases_are_read_back(release: ReleaseVersion)
    requires
        release.suffix matches ReleaseSuffix::Letter(letter) ==> 97 <= letter <= 122,
    ensures
        ({
            let spelled = text::ascii("tmux "@) + text::ascii(
                decimal::decimal(release.major as nat),
            ) + seq![46u8] + text::ascii(decimal::decimal(release.minor as nat)) + suffix_spelled(
                release.suffix,
            );
            &&& version_printed(spelled) == Some(TmuxVersion::Release(release))
            &&& version_printed(spelled.push(10)) == Some(TmuxVersion::Release(release))
        }),
{
    reveal_strlit("tmux ");
    reveal_strlit("master");
    reveal_strlit("next-");
    let name = text::ascii("tmux "@);
    let major = text::ascii(decimal::decimal(release.major as nat));
    let minor = text::ascii(decimal::decimal(release.minor as nat));
    let suffix = suffix_spelled(release.suffix);
    let spelling = major + (seq![46u8] + (minor + suffix));
    let spelled = name + major + seq![46u8] + minor + suffix;
    assert(spelled =~= name + spelling);
    lemma_release_is_read_back(release);
    assert(text::ascii("master"@)[0] == 109);
    assert(text::ascii("next-"@)[0] == 110);
    if spelling.len() >= 5 {
        assert(spelling.take(5)[0] == spelling[0]);
    }
    assert(version_denoted(spelling) == Some(TmuxVersion::Release(release)));
    assert(spelled.take(5) =~= name);
    assert(spelled.skip(5) =~= spelling);
    assert(spelled.last() == spelling.last());
    assert(spelled.push(10).drop_last() =~= spelled);
}

/// A build between releases is read as one whatever follows its mark, and a
/// line that does not start with the name of tmux is no version.
pub proof fn law_builds_between_releases_are_marked(marked: Seq<u8>, output: Seq<u8>)
    requires
        marked.len() == 0 || marked.last() != 10,
        output.len() == 0 || output.last() != 10,
    ensures
        version_printed(text::ascii("tmux master"@)) == Some(TmuxVersion::Development),
        version_printed(text::ascii("tmux next-"@) + marked) == Some(TmuxVersion::Development),
        !text::ascii("tmux "@).is_prefix_of(output) ==> version_printed(output) is None,
{
    reveal_strlit("tmux ");
    reveal_strlit("tmux master");
    reveal_strlit("master");
    reveal_strlit("tmux next-");
    reveal_strlit("next-");
    let name = text::ascii("tmux "@);
    let master = text::ascii("tmux master"@);
    assert(master.take(5) =~= name);
    assert(master.skip(5) =~= text::ascii("master"@));
    let next = text::ascii("tmux next-"@) + marked;
    assert(next.last() != 10) by {
        if marked.len() > 0 {
            assert(next.last() == marked.last());
        }
    }
    assert(next.take(5) =~= name);
    assert(next.skip(5).take(5) =~= text::ascii("next-"@));
    if output.len() >= 5 && output.take(5) == name {
        assert(output.subrange(0, 5) =~= output.take(5));
    }
}

proof fn lemma_leading_digits_bounds(bytes: Seq<u8>)
    ensures
        leading_digits(bytes) <= bytes.len(),
        decimal::all_digits(bytes.take(leading_digits(bytes) as int)),
    decreases bytes.len(),
{
    let count = leading_digits(bytes) as int;
    let head = bytes.take(count);
    if bytes.len() > 0 && 48 <= bytes[0] <= 57 {
        let rest = bytes.skip(1);
        lemma_leading_digits_bounds(rest);
        assert forall|i: int| 0 <= i < head.len() implies 48 <= #[trigger] head[i] <= 57 by {
            if i > 0 {
                assert(rest.take(count - 1)[i - 1] == head[i]);
            }
        }
    }
}

/// Nothing but a major and a minor number, parted by a dot, and a suffix is read
/// as a release: no letter but one lower-case letter, and nothing behind the
/// mark of a candidate but its digits.
pub proof fn law_releases_are_numbers_and_a_suffix(bytes: Seq<u8>, release: ReleaseVersion)
    requires
        version_denoted(bytes) == Some(TmuxVersion::Release(release)),
    ensures
        exists|major: Seq<u8>, minor: Seq<u8>, suffix: Seq<u8>|
            {
                &&& bytes == #[trigger] (major + seq![46u8] + minor + suffix)
                &&& decimal::digits(major) && decimal::digits_value(major) == release.major
                &&& decimal::digits(minor) && decimal::digits_value(minor) == release.minor
                &&& match release.suffix {
                    ReleaseSuffix::Final => suffix.len() == 0,
                    ReleaseSuffix::Letter(letter) => suffix == seq![letter] && 97 <= letter <= 122,
                    ReleaseSuffix::Candidate(number) => suffix.len() >= 3 && suffix.take(3)
                        == text::ascii("-rc"@) && (suffix.len() == 3 && number == 0
                        || decimal::digits(suffix.skip(3)) && decimal::digits_value(suffix.skip(3))
                        == number),
                }
            },
{
    let first = leading_digits(bytes) as int;
    let rest = bytes.skip(first + 1);
    let second = leading_digits(rest) as int;
    let suffix = rest.skip(second);
    lemma_leading_digits_bounds(bytes);
    lemma_leading_digits_bounds(rest);
    let major = bytes.take(first);
    let minor = rest.take(second);
    assert(bytes =~= major + seq![46u8] + minor + suffix);
    match release.suffix {
        ReleaseSuffix::Final => {},
        ReleaseSuffix::Letter(letter) => {
            assert(suffix =~= seq![letter]);
        },
        ReleaseSuffix::Candidate(number) => {
            let digits = suffix.skip(3);
            lemma_leading_digits_bounds(digits);
            assert(digits.take(digits.len() as int) =~= digits);
        },
    }
}

/// Nothing but the marks of a build between releases is read as one.
pub proof fn law_only_marks_are_builds(bytes: Seq<u8>)
    requires
        version_denoted(bytes) == Some(TmuxVersion::Development),
    ensures
        bytes == text::ascii("master"@) || text::ascii("next-"@).is_prefix_of(bytes),
{
    reveal_strlit("next-");
    if bytes.len() >= 5 {
        assert(bytes.take(5) =~= bytes.subrange(0, 5));
    }
}

} // verus!
