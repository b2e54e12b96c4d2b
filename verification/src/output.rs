//! Reading what tmux prints: lines, words and numbers.

use vstd::prelude::*;
use vstd::string::*;
use vstd::utf8::*;

use crate::decimal;
use crate::decimal::parse_digits;
use crate::text;
use crate::text::copy_bytes;
use crate::text::to_chars;
use crate::text::TmuxText;

verus! {

/// The text that `String::from_utf8_lossy` gives.
pub uninterp spec fn lossy_text(bytes: Seq<u8>) -> Seq<char>;

/// Read bytes as text, replacing what is not text.
///
/// Calls `String::from_utf8_lossy`. It is trusted to be a function of the
/// bytes, and to keep the bytes of valid UTF-8; how it replaces others stays
/// unsaid.
#[verifier::external_body]
pub(crate) fn read_lossy(bytes: &[u8]) -> (text: String)
    ensures
        text@ == lossy_text(bytes@),
        valid_utf8(bytes@) ==> encode_utf8(text@) == bytes@,
{
    String::from_utf8_lossy(bytes).into_owned()
}

/// How many characters stand in front of the first line feed.
pub open spec fn before_line_feed(text: Seq<char>) -> nat
    decreases text.len(),
{
    if text.len() == 0 || text[0] == '\n' {
        0
    } else {
        1 + before_line_feed(text.skip(1))
    }
}

/// A line without the carriage return that ends it.
pub open spec fn without_return(line: Seq<char>) -> Seq<char> {
    if line.len() > 0 && line.last() == '\r' {
        line.drop_last()
    } else {
        line
    }
}

/// The lines of a text. A line feed ends a line, and takes a carriage return
/// in front of it along; behind the last one there is no empty line.
pub open spec fn lines_of(text: Seq<char>) -> Seq<Seq<char>>
    decreases text.len(),
{
    if text.len() == 0 {
        Seq::empty()
    } else {
        let end = before_line_feed(text) as int;
        if end >= text.len() {
            seq![text]
        } else {
            seq![without_return(text.take(end))] + lines_of(text.skip(end + 1))
        }
    }
}

proof fn lemma_line_feed_at(text: Seq<char>, end: int)
    requires
        0 <= end <= text.len(),
        end < text.len() ==> text[end] == '\n',
        forall|i: int| 0 <= i < end ==> #[trigger] text[i] != '\n',
    ensures
        before_line_feed(text) == end,
    decreases end,
{
    if end > 0 {
        let rest = text.skip(1);
        assert forall|i: int| 0 <= i < end - 1 implies #[trigger] rest[i] != '\n' by {
            assert(rest[i] == text[i + 1]);
        }
        lemma_line_feed_at(rest, end - 1);
    }
}

/// Split a text into its lines.
pub fn lines(text: &str) -> (lines: Vec<&str>)
    ensures
        text::slices(lines@) == lines_of(text@),
{
    let chars = to_chars(text);
    let mut lines: Vec<&str> = Vec::new();
    let mut start: usize = 0;
    assert(text@.skip(0) =~= text@);
    assert(text::slices(lines@) + lines_of(text@) =~= lines_of(text@));
    while start < chars.len()
        invariant
            start <= chars@.len(),
            chars@ == text@,
            text::slices(lines@) + lines_of(text@.skip(start as int)) == lines_of(text@),
        decreases chars@.len() - start,
    {
        let ghost rest = text@.skip(start as int);
        let mut end: usize = start;
        while end < chars.len() && chars[end] != '\n'
            invariant
                start <= end <= chars@.len(),
                chars@ == text@,
                rest == text@.skip(start as int),
                forall|i: int| 0 <= i < end - start ==> #[trigger] rest[i] != '\n',
            decreases chars@.len() - end,
        {
            assert(rest[end - start] == chars@[end as int]);
            end += 1;
        }
        proof {
            if end < chars@.len() {
                assert(rest[end - start] == chars@[end as int]);
            }
            lemma_line_feed_at(rest, end - start);
        }
        let ghost before = text::slices(lines@);
        if end == chars.len() {
            let line = text.substring_char(start, end);
            assert(line@ =~= rest);
            lines.push(line);
            assert(text::slices(lines@) =~= before.push(line@));
            assert(text@.skip(end as int) =~= Seq::empty());
            assert(before.push(line@) + Seq::<Seq<char>>::empty() =~= before + seq![rest]);
            start = end;
        } else {
            let stop: usize = if end > start && chars[end - 1] == '\r' {
                end - 1
            } else {
                end
            };
            let line = text.substring_char(start, stop);
            proof {
                let whole = rest.take(end - start);
                if end > start {
                    assert(whole.last() == chars@[end - 1]);
                }
                assert(line@ =~= without_return(whole));
                assert(rest.skip(end - start + 1) =~= text@.skip(end + 1));
            }
            lines.push(line);
            assert(text::slices(lines@) =~= before.push(line@));
            assert(before.push(line@) + lines_of(text@.skip(end + 1)) =~= before + (seq![line@]
                + lines_of(text@.skip(end + 1))));
            start = end + 1;
        }
    }
    assert(text@.skip(start as int) =~= Seq::empty());
    assert(text::slices(lines@) + Seq::<Seq<char>>::empty() =~= text::slices(lines@));
    lines
}

/// Copies of a list of texts.
pub fn to_strings(texts: &Vec<&str>) -> (strings: Vec<String>)
    ensures
        string_views(strings@) == text::slices(texts@),
{
    let mut strings: Vec<String> = Vec::new();
    let mut index: usize = 0;
    while index < texts.len()
        invariant
            index <= texts@.len(),
            strings@.len() == index,
            forall|i: int| 0 <= i < index ==> (#[trigger] strings@[i])@ == texts@[i]@,
        decreases texts@.len() - index,
    {
        strings.push(texts[index].to_owned());
        index += 1;
    }
    assert(string_views(strings@) =~= text::slices(texts@));
    strings
}

/// The views of a list of strings.
pub open spec fn string_views(strings: Seq<String>) -> Seq<Seq<char>> {
    strings.map_values(|string: String| string@)
}

/// The views of a list of texts from tmux.
pub open spec fn text_views(texts: Seq<TmuxText>) -> Seq<Seq<u8>> {
    texts.map_values(|text: TmuxText| text@)
}

/// Whether a character is white space.
pub open spec fn is_space(character: char) -> bool {
    ||| '\u{9}' <= character <= '\u{d}'
    ||| character == ' '
    ||| character == '\u{85}'
    ||| character == '\u{a0}'
    ||| character == '\u{1680}'
    ||| '\u{2000}' <= character <= '\u{200a}'
    ||| character == '\u{2028}'
    ||| character == '\u{2029}'
    ||| character == '\u{202f}'
    ||| character == '\u{205f}'
    ||| character == '\u{3000}'
}

/// Report whether a character is white space.
pub fn is_white_space(character: char) -> (space: bool)
    ensures
        space == is_space(character),
{
    ('\u{9}' <= character && character <= '\u{d}') || character == ' ' || character == '\u{85}'
        || character == '\u{a0}' || character == '\u{1680}' || ('\u{2000}' <= character
        && character <= '\u{200a}') || character == '\u{2028}' || character == '\u{2029}'
        || character == '\u{202f}' || character == '\u{205f}' || character == '\u{3000}'
}

/// A text without the white space at its end.
pub open spec fn trimmed_end(text: Seq<char>) -> Seq<char>
    decreases text.len(),
{
    if text.len() > 0 && is_space(text.last()) {
        trimmed_end(text.drop_last())
    } else {
        text
    }
}

/// A text without the white space at its end.
pub fn trim_end(text: &str) -> (trimmed: &str)
    ensures
        trimmed@ == trimmed_end(text@),
{
    let chars = to_chars(text);
    let mut end: usize = chars.len();
    assert(text@.take(end as int) =~= text@);
    while end > 0 && is_white_space(chars[end - 1])
        invariant
            end <= chars@.len(),
            chars@ == text@,
            trimmed_end(text@) == trimmed_end(text@.take(end as int)),
        decreases end,
    {
        assert(text@.take(end as int).drop_last() =~= text@.take(end - 1));
        end -= 1;
    }
    proof {
        if end > 0 {
            assert(text@.take(end as int).last() == chars@[end - 1]);
        }
        assert(text@.subrange(0, end as int) =~= text@.take(end as int));
    }
    text.substring_char(0, end)
}

/// How many characters stand in front of the first white space, or of the
/// first character that is none.
pub open spec fn run(text: Seq<char>, space: bool) -> nat
    decreases text.len(),
{
    if text.len() == 0 || is_space(text[0]) != space {
        0
    } else {
        1 + run(text.skip(1), space)
    }
}

/// The words of a text: what white space parts.
pub open spec fn words_of(text: Seq<char>) -> Seq<Seq<char>>
    decreases text.len(),
{
    let start = run(text, true) as int;
    let length = run(text.skip(start), false) as int;
    if length <= 0 || start + length > text.len() {
        Seq::empty()
    } else {
        seq![text.skip(start).take(length)] + words_of(text.skip(start + length))
    }
}

proof fn lemma_run_at(text: Seq<char>, space: bool, length: int)
    requires
        0 <= length <= text.len(),
        length < text.len() ==> is_space(text[length]) != space,
        forall|i: int| 0 <= i < length ==> is_space(#[trigger] text[i]) == space,
    ensures
        run(text, space) == length,
    decreases length,
{
    if length > 0 {
        let rest = text.skip(1);
        assert forall|i: int| 0 <= i < length - 1 implies is_space(#[trigger] rest[i])
            == space by {
            assert(rest[i] == text[i + 1]);
        }
        lemma_run_at(rest, space, length - 1);
    }
}

/// The end of the run of white space, or of other characters, that starts at a
/// position.
fn run_end(chars: &Vec<char>, start: usize, space: bool) -> (end: usize)
    requires
        start <= chars@.len(),
    ensures
        start <= end <= chars@.len(),
        end - start == run(chars@.skip(start as int), space),
        start < chars@.len() && is_space(chars@[start as int]) == space ==> end > start,
        end < chars@.len() ==> is_space(chars@[end as int]) != space,
{
    let ghost rest = chars@.skip(start as int);
    let mut end: usize = start;
    while end < chars.len() && is_white_space(chars[end]) == space
        invariant
            start <= end <= chars@.len(),
            rest == chars@.skip(start as int),
            forall|i: int| 0 <= i < end - start ==> is_space(#[trigger] rest[i]) == space,
        decreases chars@.len() - end,
    {
        assert(rest[end - start] == chars@[end as int]);
        end += 1;
    }
    proof {
        if end < chars@.len() {
            assert(rest[end - start] == chars@[end as int]);
        }
        lemma_run_at(rest, space, end - start);
    }
    end
}

/// Split a text into its words.
pub fn words(text: &str) -> (words: Vec<&str>)
    ensures
        text::slices(words@) == words_of(text@),
{
    let chars = to_chars(text);
    let mut words: Vec<&str> = Vec::new();
    let mut position: usize = 0;
    assert(text@.skip(0) =~= text@);
    assert(text::slices(words@) + words_of(text@) =~= words_of(text@));
    while position < chars.len()
        invariant
            position <= chars@.len(),
            chars@ == text@,
            text::slices(words@) + words_of(text@.skip(position as int)) == words_of(text@),
        decreases chars@.len() - position,
    {
        let ghost rest = text@.skip(position as int);
        let start = run_end(&chars, position, true);
        let end = run_end(&chars, start, false);
        let ghost before = text::slices(words@);
        assert(rest.skip(start - position) =~= text@.skip(start as int));
        if start == chars.len() {
            assert(words_of(rest) =~= Seq::empty());
            assert(text@.skip(start as int) =~= Seq::empty());
            assert(words_of(text@.skip(start as int)) =~= Seq::empty());
            position = start;
        } else {
            let word = text.substring_char(start, end);
            proof {
                assert(word@ =~= rest.skip(start - position).take(end - start));
                assert(rest.skip(end - position) =~= text@.skip(end as int));
            }
            words.push(word);
            assert(text::slices(words@) =~= before.push(word@));
            assert(before.push(word@) + words_of(text@.skip(end as int)) =~= before + (seq![word@]
                + words_of(text@.skip(end as int))));
            position = end;
        }
    }
    assert(text@.skip(position as int) =~= Seq::empty());
    assert(words_of(text@.skip(position as int)) =~= Seq::empty());
    assert(text::slices(words@) + Seq::<Seq<char>>::empty() =~= text::slices(words@));
    words
}

/// The number that a spelling without a minus denotes.
pub open spec fn unsigned_denoted(spelling: Seq<u8>) -> Option<int> {
    let digits = if spelling.len() > 0 && spelling[0] == 43 {
        spelling.skip(1)
    } else {
        spelling
    };
    if decimal::digits(digits) {
        Some(decimal::digits_value(digits) as int)
    } else {
        None
    }
}

/// The number that a spelling denotes.
pub open spec fn integer_denoted(spelling: Seq<u8>) -> Option<int> {
    if spelling.len() > 0 && spelling[0] == 45 {
        let digits = spelling.skip(1);
        if decimal::digits(digits) {
            Some(-(decimal::digits_value(digits) as int))
        } else {
            None
        }
    } else {
        unsigned_denoted(spelling)
    }
}

/// Read a number without a minus, up to a limit.
fn parse_magnitude(spelling: &[u8], limit: u64) -> (number: Option<u64>)
    ensures
        match number {
            Some(number) => unsigned_denoted(spelling@) == Some(number as int) && number <= limit,
            None => unsigned_denoted(spelling@) matches Some(value) ==> value > limit,
        },
{
    let start: usize = if spelling.len() > 0 && spelling[0] == 43 {
        1
    } else {
        0
    };
    assert(spelling@.skip(0) =~= spelling@);
    parse_digits(spelling, start, limit)
}

/// Read an unsigned number.
pub fn parse_u32(spelling: &[u8]) -> (number: Option<u32>)
    ensures
        match number {
            Some(number) => unsigned_denoted(spelling@) == Some(number as int),
            None => unsigned_denoted(spelling@) matches Some(value) ==> value > u32::MAX,
        },
{
    match parse_magnitude(spelling, u32::MAX as u64) {
        Some(number) => Some(number as u32),
        None => None,
    }
}

/// Read a signed number.
pub fn parse_i64(spelling: &[u8]) -> (number: Option<i64>)
    ensures
        match number {
            Some(number) => integer_denoted(spelling@) == Some(number as int),
            None => integer_denoted(spelling@) matches Some(value) ==> value > i64::MAX || value
                < i64::MIN,
        },
{
    if spelling.len() > 0 && spelling[0] == 45 {
        match parse_digits(spelling, 1, 0x8000_0000_0000_0000u64) {
            Some(magnitude) => if magnitude == 0x8000_0000_0000_0000u64 {
                Some(i64::MIN)
            } else {
                Some(-(magnitude as i64))
            },
            None => None,
        }
    } else {
        match parse_magnitude(spelling, i64::MAX as u64) {
            Some(number) => Some(number as i64),
            None => None,
        }
    }
}

/// Output without the line feed that frames it.
pub open spec fn unframed(output: Seq<u8>) -> Seq<u8> {
    if output.len() > 0 && output.last() == 10 {
        output.drop_last()
    } else {
        output
    }
}

/// Take off the line feed that frames an output.
pub fn read_framed(output: &[u8]) -> (text: TmuxText)
    ensures
        text@ == unframed(output@),
{
    let mut bytes = copy_bytes(output);
    if output.len() > 0 && output[output.len() - 1] == 10 {
        bytes.pop();
    }
    assert(bytes@ =~= unframed(output@));
    TmuxText::from_bytes(bytes)
}

/// The parts of an output between its line feeds.
pub open spec fn parted(output: Seq<u8>) -> Seq<Seq<u8>>
    decreases output.len(),
{
    if output.len() == 0 {
        seq![Seq::empty()]
    } else {
        let earlier = parted(output.drop_last());
        if output.last() == 10 {
            earlier.push(Seq::empty())
        } else {
            earlier.update(earlier.len() - 1, earlier.last().push(output.last()))
        }
    }
}

/// The lines that a shell printed. Output of nothing but its frame has none.
pub open spec fn shell_lines(output: Seq<u8>) -> Seq<Seq<u8>> {
    if unframed(output).len() == 0 {
        Seq::empty()
    } else {
        parted(unframed(output))
    }
}

/// Read the lines that a shell printed.
pub fn read_shell_lines(output: &[u8]) -> (lines: Vec<TmuxText>)
    ensures
        text_views(lines@) == shell_lines(output@),
{
    let framed = read_framed(output);
    let bytes = framed.as_bytes();
    let ghost inner = unframed(output@);
    let mut lines: Vec<TmuxText> = Vec::new();
    if bytes.len() == 0 {
        assert(text_views(lines@) =~= Seq::empty());
        return lines;
    }
    let mut line: Vec<u8> = Vec::new();
    let mut index: usize = 0;
    assert(inner.take(0) =~= Seq::empty());
    assert(text_views(lines@).push(line@) =~= parted(Seq::empty()));
    while index < bytes.len()
        invariant
            index <= bytes@.len(),
            bytes@ == inner,
            text_views(lines@).push(line@) == parted(inner.take(index as int)),
        decreases bytes@.len() - index,
    {
        let ghost longer = inner.take(index + 1);
        assert(longer.drop_last() =~= inner.take(index as int));
        let ghost before = text_views(lines@);
        let ghost earlier = before.push(line@);
        let byte = bytes[index];
        assert(longer.last() == byte);
        if byte == 10 {
            let ghost ended = line@;
            lines.push(TmuxText::from_bytes(line));
            line = Vec::new();
            assert(text_views(lines@) =~= before.push(ended));
            assert(text_views(lines@).push(line@) =~= earlier.push(Seq::empty()));
        } else {
            let ghost shorter = line@;
            line.push(byte);
            assert(before.push(line@) =~= earlier.update(
                earlier.len() - 1,
                earlier.last().push(byte),
            ));
        }
        index += 1;
    }
    assert(inner.take(bytes@.len() as int) =~= inner);
    let ghost before = text_views(lines@);
    let ghost last = line@;
    lines.push(TmuxText::from_bytes(line));
    assert(text_views(lines@) =~= before.push(last));
    lines
}

/// The lines of a text, joined by line feeds.
pub open spec fn joined(lines: Seq<Seq<u8>>) -> Seq<u8>
    decreases lines.len(),
{
    if lines.len() == 0 {
        Seq::empty()
    } else if lines.len() == 1 {
        lines[0]
    } else {
        joined(lines.drop_last()) + seq![10u8] + lines.last()
    }
}

/// No byte that a shell printed is lost: the lines, joined again, are the
/// output without its frame, and no line holds a line feed.
pub proof fn law_shell_lines_keep_the_output(output: Seq<u8>)
    ensures
        joined(shell_lines(output)) == unframed(output),
        forall|i: int, j: int|
            0 <= i < shell_lines(output).len() && 0 <= j < shell_lines(output)[i].len()
                ==> #[trigger] shell_lines(output)[i][j] != 10,
{
    lemma_parted_keeps(unframed(output));
}

proof fn lemma_parted_keeps(output: Seq<u8>)
    ensures
        parted(output).len() > 0,
        joined(parted(output)) == output,
        forall|i: int, j: int|
            0 <= i < parted(output).len() && 0 <= j < parted(output)[i].len() ==> #[trigger] parted(
                output,
            )[i][j] != 10,
    decreases output.len(),
{
    if output.len() > 0 {
        let head = output.drop_last();
        lemma_parted_keeps(head);
        let earlier = parted(head);
        let all = parted(output);
        assert(head.push(output.last()) =~= output);
        if output.last() == 10 {
            assert(all.drop_last() =~= earlier);
            assert(all.last() =~= Seq::empty());
            assert(joined(all) =~= output);
        } else {
            assert(all.drop_last() =~= earlier.drop_last());
            assert(all.last() == earlier.last().push(output.last()));
            assert(joined(all) =~= joined(earlier).push(output.last()));
        }
    }
}

/// A line ends at a line feed, or at a carriage return and a line feed, and
/// the text behind it is split in the same way. What no line feed ends is a
/// line too, unless it is empty.
pub proof fn law_lines_end_at_line_feeds(line: Seq<char>, rest: Seq<char>)
    requires
        forall|i: int| 0 <= i < line.len() ==> #[trigger] line[i] != '\n',
    ensures
        lines_of(Seq::empty()) == Seq::<Seq<char>>::empty(),
        line.len() > 0 ==> lines_of(line) == seq![line],
        line.len() == 0 || line.last() != '\r' ==> lines_of(line + seq!['\n'] + rest) == seq![line]
            + lines_of(rest),
        lines_of(line + seq!['\r'] + seq!['\n'] + rest) == seq![line] + lines_of(rest),
{
    lemma_line_feed_at(line, line.len() as int);
    let whole = line + seq!['\n'] + rest;
    assert forall|i: int| 0 <= i < line.len() implies #[trigger] whole[i] != '\n' by {
        assert(whole[i] == line[i]);
    }
    assert(whole[line.len() as int] == '\n');
    lemma_line_feed_at(whole, line.len() as int);
    assert(whole.take(line.len() as int) =~= line);
    assert(whole.skip(line.len() as int + 1) =~= rest);
    let returned = line + seq!['\r'];
    let other = returned + seq!['\n'] + rest;
    assert forall|i: int| 0 <= i < returned.len() implies #[trigger] other[i] != '\n' by {
        assert(other[i] == returned[i]);
        if i < line.len() {
            assert(returned[i] == line[i]);
        }
    }
    assert(other[returned.len() as int] == '\n');
    lemma_line_feed_at(other, returned.len() as int);
    assert(other.take(returned.len() as int) =~= returned);
    assert(returned.last() == '\r');
    assert(returned.drop_last() =~= line);
    assert(other.skip(returned.len() as int + 1) =~= rest);
}

/// White space in front of a text adds no word, a word that white space or the
/// end follows is the first word, and what stands behind the white space is
/// split in the same way.
pub proof fn law_words_are_parted_by_white_space(
    spaces: Seq<char>,
    word: Seq<char>,
    rest: Seq<char>,
)
    requires
        word.len() > 0,
        forall|i: int| 0 <= i < spaces.len() ==> is_space(#[trigger] spaces[i]),
        forall|i: int| 0 <= i < word.len() ==> !is_space(#[trigger] word[i]),
        rest.len() > 0 ==> is_space(rest[0]),
    ensures
        words_of(spaces) == Seq::<Seq<char>>::empty(),
        words_of(spaces + word + rest) == seq![word] + words_of(rest),
{
    lemma_run_at(spaces, true, spaces.len() as int);
    assert(spaces.skip(spaces.len() as int) =~= Seq::empty());
    let whole = spaces + word + rest;
    assert forall|i: int| 0 <= i < spaces.len() implies is_space(#[trigger] whole[i]) by {
        assert(whole[i] == spaces[i]);
    }
    assert(whole[spaces.len() as int] == word[0]);
    lemma_run_at(whole, true, spaces.len() as int);
    let behind = whole.skip(spaces.len() as int);
    assert(behind =~= word + rest);
    assert forall|i: int| 0 <= i < word.len() implies !is_space(#[trigger] behind[i]) by {
        assert(behind[i] == word[i]);
    }
    if rest.len() > 0 {
        assert(behind[word.len() as int] == rest[0]);
    }
    lemma_run_at(behind, false, word.len() as int);
    assert(behind.take(word.len() as int) =~= word);
    assert(whole.skip((spaces.len() + word.len()) as int) =~= rest);
}

/// The characters that are white space, by their code points.
pub proof fn law_white_space_by_code_point(character: char)
    ensures
        is_space(character) <==> ({
            let point = character as u32;
            9 <= point <= 13 || point == 32 || point == 133 || point == 160 || point == 5760 || 8192
                <= point <= 8202 || point == 8232 || point == 8233 || point == 8239 || point == 8287
                || point == 12288
        }),
{
}

/// Trimming takes off white space and nothing else, until none is left at the
/// end.
pub proof fn law_trimming_takes_off_white_space(text: Seq<char>)
    ensures
        trimmed_end(text).len() <= text.len(),
        text.take(trimmed_end(text).len() as int) == trimmed_end(text),
        forall|i: int| trimmed_end(text).len() <= i < text.len() ==> is_space(#[trigger] text[i]),
        trimmed_end(text).len() > 0 ==> !is_space(trimmed_end(text).last()),
    decreases text.len(),
{
    if text.len() > 0 && is_space(text.last()) {
        let head = text.drop_last();
        law_trimming_takes_off_white_space(head);
        let kept = trimmed_end(text).len() as int;
        assert(text.take(kept) =~= head.take(kept));
        assert forall|i: int| kept <= i < text.len() implies is_space(#[trigger] text[i]) by {
            if i < head.len() {
                assert(head[i] == text[i]);
            }
        }
    } else {
        assert(text.take(text.len() as int) =~= text);
    }
}

/// Digits denote their number, with a plus or without, and behind a minus its
/// negation. Nothing else denotes a number.
pub proof fn law_numbers_are_signed_digits(digits: Seq<u8>)
    ensures
        decimal::digits(digits) ==> {
            let number = decimal::digits_value(digits) as int;
            &&& unsigned_denoted(digits) == Some(number)
            &&& unsigned_denoted(seq![43u8] + digits) == Some(number)
            &&& unsigned_denoted(seq![45u8] + digits) is None
            &&& integer_denoted(digits) == Some(number)
            &&& integer_denoted(seq![43u8] + digits) == Some(number)
            &&& integer_denoted(seq![45u8] + digits) == Some(-number)
        },
        !decimal::digits(digits) ==> {
            &&& unsigned_denoted(seq![43u8] + digits) is None
            &&& integer_denoted(seq![43u8] + digits) is None
            &&& integer_denoted(seq![45u8] + digits) is None
            &&& digits.len() == 0 || digits[0] != 43 ==> unsigned_denoted(digits) is None
            &&& digits.len() == 0 || (digits[0] != 43 && digits[0] != 45) ==> integer_denoted(
                digits,
            ) is None
        },
{
    let plus = seq![43u8] + digits;
    let minus = seq![45u8] + digits;
    assert(plus.skip(1) =~= digits);
    assert(minus.skip(1) =~= digits);
    assert(plus[0] == 43);
    assert(minus[0] == 45);
    assert(!decimal::digits(minus));
}

/// One line feed frames an output: it is taken off, and nothing else is.
pub proof fn law_one_line_feed_frames(output: Seq<u8>)
    ensures
        unframed(output.push(10)) == output,
        output.len() == 0 || output.last() != 10 ==> unframed(output) == output,
        shell_lines(output).len() == 0 <==> unframed(output).len() == 0,
{
    assert(output.push(10).drop_last() =~= output);
    lemma_parted_keeps(unframed(output));
}

} // verus!
