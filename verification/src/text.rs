//! Text primitives shared by every module: exact comparison and ordering of
//! strings and byte strings, and the byte-preserving [`TmuxText`].

use vstd::prelude::*;
use vstd::string::*;
use vstd::utf8::*;

use crate::decimal;
use crate::decimal::format_unsigned;

verus! {

/// The bytes of an ASCII character sequence.
pub open spec fn ascii(chars: Seq<char>) -> Seq<u8> {
    Seq::new(chars.len(), |i: int| chars[i] as u8)
}

/// Two character sequences with one UTF-8 encoding are one sequence.
pub proof fn lemma_encoding_is_injective(left: Seq<char>, right: Seq<char>)
    ensures
        encode_utf8(left) == encode_utf8(right) <==> left == right,
{
    encode_utf8_decode_utf8(left);
    encode_utf8_decode_utf8(right);
}

/// An ASCII character sequence is encoded one byte per character.
pub proof fn lemma_ascii_encoding(chars: Seq<char>)
    requires
        is_ascii_chars(chars),
    ensures
        encode_utf8(chars) == ascii(chars),
{
    is_ascii_chars_encode_utf8(chars);
    assert(encode_utf8(chars) =~= ascii(chars));
}

/// Compare two byte strings.
pub fn bytes_eq(left: &[u8], right: &[u8]) -> (same: bool)
    ensures
        same == (left@ == right@),
{
    if left.len() != right.len() {
        return false;
    }
    let mut index: usize = 0;
    while index < left.len()
        invariant
            index <= left@.len(),
            left@.len() == right@.len(),
            forall|i: int| 0 <= i < index ==> left@[i] == right@[i],
        decreases left@.len() - index,
    {
        if left[index] != right[index] {
            return false;
        }
        index += 1;
    }
    assert(left@ =~= right@);
    true
}

/// Compare two strings.
pub fn str_eq(left: &str, right: &str) -> (same: bool)
    ensures
        same == (left@ == right@),
{
    proof {
        lemma_encoding_is_injective(left@, right@);
    }
    bytes_eq(left.as_bytes(), right.as_bytes())
}

/// Spell a string out as its characters.
pub fn to_chars(value: &str) -> (chars: Vec<char>)
    ensures
        chars@ == value@,
{
    let mut chars: Vec<char> = Vec::new();
    for character in iter: value.chars()
        invariant
            chars@ == iter.seq().take(iter.index()),
    {
        chars.push(character);
    }
    chars
}

/// Report whether the characters of one text are found at a position of
/// another.
fn found_at(needle: &[char], whole: &[char], start: usize) -> (found: bool)
    requires
        start + needle@.len() <= whole@.len(),
    ensures
        found == (whole@.subrange(start as int, start + needle@.len()) == needle@),
{
    let length: usize = whole.len();
    let mut index: usize = 0;
    while index < needle.len()
        invariant
            index <= needle@.len(),
            start + needle@.len() <= whole@.len(),
            whole@.len() == length,
            forall|i: int| 0 <= i < index ==> whole@[start + i] == needle@[i],
        decreases needle@.len() - index,
    {
        if whole[start + index] != needle[index] {
            proof {
                let part = whole@.subrange(start as int, start + needle@.len());
                assert(part[index as int] == whole@[start + index]);
            }
            return false;
        }
        index += 1;
    }
    assert(whole@.subrange(start as int, start + needle@.len()) =~= needle@);
    true
}

/// Report whether one text starts with another.
pub fn starts_with(whole: &str, prefix: &str) -> (found: bool)
    ensures
        found == prefix@.is_prefix_of(whole@),
{
    let text = to_chars(whole);
    let part = to_chars(prefix);
    part.len() <= text.len() && found_at(part.as_slice(), text.as_slice(), 0)
}

/// Report whether one text ends with another.
pub fn ends_with(whole: &str, suffix: &str) -> (found: bool)
    ensures
        found == suffix@.is_suffix_of(whole@),
{
    let text = to_chars(whole);
    let part = to_chars(suffix);
    part.len() <= text.len() && found_at(
        part.as_slice(),
        text.as_slice(),
        text.len() - part.len(),
    )
}

/// Whether one sequence occurs somewhere in another.
pub open spec fn occurs_in<T>(needle: Seq<T>, whole: Seq<T>) -> bool {
    exists|start: int|
        0 <= start <= whole.len() - needle.len() && #[trigger] whole.subrange(
            start,
            start + needle.len(),
        ) == needle
}

/// Report whether one text occurs somewhere in another.
pub fn contains(whole: &str, needle: &str) -> (found: bool)
    ensures
        found == occurs_in(needle@, whole@),
{
    let text = to_chars(whole);
    let part = to_chars(needle);
    if part.len() > text.len() {
        return false;
    }
    let last: usize = text.len() - part.len();
    let mut start: usize = 0;
    while start < last
        invariant
            start <= last,
            text@ == whole@,
            part@ == needle@,
            last + part@.len() == text@.len(),
            forall|earlier: int|
                0 <= earlier < start ==> #[trigger] whole@.subrange(
                    earlier,
                    earlier + needle@.len(),
                ) != needle@,
        decreases last - start,
    {
        if found_at(part.as_slice(), text.as_slice(), start) {
            return true;
        }
        start += 1;
    }
    found_at(part.as_slice(), text.as_slice(), last)
}

/// Copy a byte string.
pub fn copy_bytes(bytes: &[u8]) -> (copy: Vec<u8>)
    ensures
        copy@ == bytes@,
{
    let mut copy: Vec<u8> = Vec::new();
    let mut index: usize = 0;
    while index < bytes.len()
        invariant
            index <= bytes@.len(),
            copy@ == bytes@.take(index as int),
        decreases bytes@.len() - index,
    {
        copy.push(bytes[index]);
        index += 1;
    }
    copy
}

/// Whether one byte string comes before another, byte by byte. A proper prefix
/// comes first.
pub open spec fn precedes(left: Seq<u8>, right: Seq<u8>) -> bool
    decreases left.len(),
{
    if right.len() == 0 {
        false
    } else if left.len() == 0 {
        true
    } else if left[0] != right[0] {
        left[0] < right[0]
    } else {
        precedes(left.skip(1), right.skip(1))
    }
}

/// Whether one text comes before another in the order of their bytes.
pub open spec fn text_precedes(left: Seq<char>, right: Seq<char>) -> bool {
    precedes(encode_utf8(left), encode_utf8(right))
}

/// Report whether one byte string comes before another.
pub fn bytes_precede(left: &[u8], right: &[u8]) -> (earlier: bool)
    ensures
        earlier == precedes(left@, right@),
{
    let mut index: usize = 0;
    assert(left@.skip(0) =~= left@);
    assert(right@.skip(0) =~= right@);
    while index < left.len() && index < right.len()
        invariant
            index <= left@.len(),
            index <= right@.len(),
            precedes(left@, right@) == precedes(left@.skip(index as int), right@.skip(index as int)),
        decreases left@.len() - index,
    {
        let ghost left_rest = left@.skip(index as int);
        let ghost right_rest = right@.skip(index as int);
        assert(left_rest[0] == left@[index as int]);
        assert(right_rest[0] == right@[index as int]);
        if left[index] != right[index] {
            return left[index] < right[index];
        }
        assert(left_rest.skip(1) =~= left@.skip(index + 1));
        assert(right_rest.skip(1) =~= right@.skip(index + 1));
        index += 1;
    }
    index < right.len()
}

/// The order of bytes never puts a byte string before itself, and never puts
/// two byte strings before each other.
pub proof fn lemma_precedes_is_strict(left: Seq<u8>, right: Seq<u8>)
    ensures
        !precedes(left, left),
        !(precedes(left, right) && precedes(right, left)),
        left != right ==> precedes(left, right) || precedes(right, left),
    decreases left.len(),
{
    if left.len() > 0 {
        lemma_precedes_is_strict(left.skip(1), left.skip(1));
        if right.len() > 0 && left[0] == right[0] {
            lemma_precedes_is_strict(left.skip(1), right.skip(1));
            if left.skip(1) == right.skip(1) {
                assert(left =~= seq![left[0]] + left.skip(1));
                assert(right =~= seq![right[0]] + right.skip(1));
            }
        }
    } else if right.len() == 0 {
        assert(left =~= right);
    }
}

/// The order of bytes is transitive.
pub proof fn lemma_precedes_is_transitive(first: Seq<u8>, second: Seq<u8>, third: Seq<u8>)
    requires
        precedes(first, second),
        precedes(second, third),
    ensures
        precedes(first, third),
    decreases first.len(),
{
    if first.len() > 0 && first[0] == second[0] && second[0] == third[0] {
        lemma_precedes_is_transitive(first.skip(1), second.skip(1), third.skip(1));
    }
}

/// A text put into an ordered list that holds nothing twice.
pub open spec fn inserted(values: Seq<Seq<char>>, value: Seq<char>) -> Seq<Seq<char>>
    decreases values.len(),
{
    if values.len() == 0 {
        seq![value]
    } else if value == values[0] {
        values
    } else if text_precedes(value, values[0]) {
        seq![value] + values
    } else {
        seq![values[0]] + inserted(values.skip(1), value)
    }
}

/// The texts of a list, in the order of their bytes and each of them once.
pub open spec fn sorted_set(values: Seq<Seq<char>>) -> Seq<Seq<char>>
    decreases values.len(),
{
    if values.len() == 0 {
        Seq::empty()
    } else {
        inserted(sorted_set(values.drop_last()), values.last())
    }
}

/// Whether every text of a list comes before the texts behind it.
pub open spec fn increasing(values: Seq<Seq<char>>) -> bool {
    forall|i: int, j: int|
        0 <= i < j < values.len() ==> text_precedes(#[trigger] values[i], #[trigger] values[j])
}

proof fn lemma_inserted(values: Seq<Seq<char>>, value: Seq<char>)
    requires
        increasing(values),
    ensures
        increasing(inserted(values, value)),
        forall|other: Seq<char>| #[trigger]
            inserted(values, value).contains(other) <==> values.contains(other) || other == value,
    decreases values.len(),
{
    let result = inserted(values, value);
    if values.len() == 0 {
        assert(result[0] == value);
    } else if value == values[0] {
    } else if text_precedes(value, values[0]) {
        assert(result[0] == value);
        assert forall|i: int, j: int| 0 <= i < j < result.len() implies text_precedes(
            #[trigger] result[i],
            #[trigger] result[j],
        ) by {
            assert(result[j] == values[j - 1]);
            if i > 0 {
                assert(result[i] == values[i - 1]);
            } else if j > 1 {
                assert(text_precedes(values[0], values[j - 1]));
                lemma_precedes_is_transitive(
                    encode_utf8(value),
                    encode_utf8(values[0]),
                    encode_utf8(values[j - 1]),
                );
            }
        }
        assert forall|other: Seq<char>| #[trigger] result.contains(other) <==> values.contains(
            other,
        ) || other == value by {
            if values.contains(other) {
                let i = choose|i: int| 0 <= i < values.len() && values[i] == other;
                assert(result[i + 1] == other);
            }
            if result.contains(other) {
                let i = choose|i: int| 0 <= i < result.len() && result[i] == other;
                if i > 0 {
                    assert(values[i - 1] == other);
                }
            }
        }
    } else {
        let rest = values.skip(1);
        assert forall|i: int, j: int| 0 <= i < j < rest.len() implies text_precedes(
            #[trigger] rest[i],
            #[trigger] rest[j],
        ) by {
            assert(rest[i] == values[i + 1]);
            assert(rest[j] == values[j + 1]);
        }
        lemma_inserted(rest, value);
        let tail = inserted(rest, value);
        assert(result == seq![values[0]] + tail);
        lemma_precedes_is_strict(encode_utf8(value), encode_utf8(values[0]));
        lemma_encoding_is_injective(value, values[0]);
        assert forall|i: int, j: int| 0 <= i < j < result.len() implies text_precedes(
            #[trigger] result[i],
            #[trigger] result[j],
        ) by {
            assert(result[j] == tail[j - 1]);
            if i > 0 {
                assert(result[i] == tail[i - 1]);
            } else {
                assert(tail.contains(tail[j - 1]));
                if rest.contains(tail[j - 1]) {
                    let k = choose|k: int| 0 <= k < rest.len() && rest[k] == tail[j - 1];
                    assert(values[k + 1] == tail[j - 1]);
                }
            }
        }
        assert forall|other: Seq<char>| #[trigger] result.contains(other) <==> values.contains(
            other,
        ) || other == value by {
            if values.contains(other) {
                let i = choose|i: int| 0 <= i < values.len() && values[i] == other;
                if i > 0 {
                    assert(rest[i - 1] == other);
                    assert(tail.contains(other));
                    let k = choose|k: int| 0 <= k < tail.len() && tail[k] == other;
                    assert(result[k + 1] == other);
                } else {
                    assert(result[0] == other);
                }
            }
            if other == value {
                assert(tail.contains(other));
                let k = choose|k: int| 0 <= k < tail.len() && tail[k] == other;
                assert(result[k + 1] == other);
            }
            if result.contains(other) {
                let i = choose|i: int| 0 <= i < result.len() && result[i] == other;
                if i > 0 {
                    assert(tail[i - 1] == other);
                    assert(tail.contains(other));
                    if rest.contains(other) {
                        let k = choose|k: int| 0 <= k < rest.len() && rest[k] == other;
                        assert(values[k + 1] == other);
                    }
                }
            }
        }
    }
}

/// Ordering a list keeps its texts, puts each of them before the ones behind
/// it, and drops repetitions.
pub proof fn law_sorted_sets_are_increasing(values: Seq<Seq<char>>)
    ensures
        increasing(sorted_set(values)),
        forall|value: Seq<char>| #[trigger]
            sorted_set(values).contains(value) <==> values.contains(value),
    decreases values.len(),
{
    if values.len() > 0 {
        let head = values.drop_last();
        let last = values.last();
        law_sorted_sets_are_increasing(head);
        lemma_inserted(sorted_set(head), last);
        assert forall|value: Seq<char>| #[trigger]
            sorted_set(values).contains(value) <==> values.contains(value) by {
            if values.contains(value) {
                let i = choose|i: int| 0 <= i < values.len() && values[i] == value;
                if i < head.len() {
                    assert(head[i] == value);
                    assert(head.contains(value));
                }
            }
            if head.contains(value) {
                let i = choose|i: int| 0 <= i < head.len() && head[i] == value;
                assert(values[i] == value);
            }
            assert(values[values.len() - 1] == last);
            assert(sorted_set(head).contains(value) <==> head.contains(value));
            assert(inserted(sorted_set(head), last).contains(value) <==> sorted_set(
                head,
            ).contains(value) || value == last);
        }
    }
}

/// The views of a list of string slices.
pub open spec fn slices(values: Seq<&str>) -> Seq<Seq<char>> {
    values.map_values(|value: &str| value@)
}

/// Put a text into an ordered list.
fn insert_sorted<'a>(values: &mut Vec<&'a str>, value: &'a str)
    ensures
        slices(final(values)@) == inserted(slices(old(values)@), value@),
{
    let ghost before = values@;
    let ghost texts = slices(before);
    let mut index: usize = 0;
    assert(texts.skip(0) =~= texts);
    assert(texts.take(0) + inserted(texts.skip(0), value@) =~= inserted(texts, value@));
    while index < values.len()
        invariant
            index <= values@.len(),
            values@ == before,
            before == old(values)@,
            texts == slices(before),
            texts.take(index as int) + inserted(texts.skip(index as int), value@) == inserted(
                texts,
                value@,
            ),
        decreases values@.len() - index,
    {
        let ghost rest = texts.skip(index as int);
        assert(rest[0] == values@[index as int]@);
        if str_eq(value, values[index]) {
            assert(texts.take(index as int) + rest =~= texts);
            return ;
        }
        if bytes_precede(value.as_bytes(), values[index].as_bytes()) {
            values.insert(index, value);
            assert(slices(values@) =~= texts.take(index as int) + (seq![value@] + rest));
            return ;
        }
        proof {
            assert(rest.skip(1) =~= texts.skip(index + 1));
            assert(texts.take(index as int) + (seq![rest[0]] + inserted(rest.skip(1), value@))
                =~= texts.take(index + 1) + inserted(texts.skip(index + 1), value@));
        }
        index += 1;
    }
    values.push(value);
    assert(slices(values@) =~= texts.take(index as int) + seq![value@]);
}

/// Order texts by their bytes and drop repetitions.
pub fn sort_set<'a>(values: &[&'a str]) -> (sorted: Vec<&'a str>)
    ensures
        slices(sorted@) == sorted_set(slices(values@)),
{
    let ghost texts = slices(values@);
    let mut sorted: Vec<&'a str> = Vec::new();
    let mut index: usize = 0;
    assert(slices(sorted@) =~= sorted_set(texts.take(0)));
    while index < values.len()
        invariant
            index <= values@.len(),
            texts == slices(values@),
            slices(sorted@) == sorted_set(texts.take(index as int)),
        decreases values@.len() - index,
    {
        proof {
            let longer = texts.take(index + 1);
            assert(longer.drop_last() =~= texts.take(index as int));
            assert(longer.last() == values@[index as int]@);
        }
        insert_sorted(&mut sorted, values[index]);
        index += 1;
    }
    assert(texts.take(texts.len() as int) =~= texts);
    sorted
}

/// Text from tmux, byte for byte. Tmux reports names and paths that need not be
/// UTF-8, so the bytes are kept as they came.
pub struct TmuxText {
    bytes: Vec<u8>,
}

impl TmuxText {
    /// The bytes in contracts.
    pub closed spec fn view(&self) -> Seq<u8> {
        self.bytes@
    }

    /// Keep bytes as text.
    pub fn from_bytes(bytes: Vec<u8>) -> (text: TmuxText)
        ensures
            text@ == bytes@,
    {
        TmuxText { bytes }
    }

    /// Keep a string as text.
    pub fn from_text(value: &str) -> (text: TmuxText)
        ensures
            text@ == encode_utf8(value@),
    {
        TmuxText { bytes: copy_bytes(value.as_bytes()) }
    }

    /// The bytes.
    pub fn as_bytes(&self) -> (bytes: &[u8])
        ensures
            bytes@ == self@,
    {
        self.bytes.as_slice()
    }

    /// Report whether there are no bytes.
    pub fn is_empty(&self) -> (empty: bool)
        ensures
            empty == (self@.len() == 0),
    {
        self.bytes.len() == 0
    }

    /// Copy the text.
    pub fn copy(&self) -> (copy: TmuxText)
        ensures
            copy@ == self@,
    {
        TmuxText { bytes: copy_bytes(self.bytes.as_slice()) }
    }

    /// A rendering that shows how many bytes there are and none of them.
    pub fn debug_text(&self) -> (rendering: String)
        ensures
            rendering@ == redacted_text(self@.len()),
    {
        let mut rendering = "TmuxText { len: ".to_owned();
        rendering.append(format_unsigned(self.bytes.len() as u128).as_str());
        rendering.append(" }");
        rendering
    }
}

/// The rendering of a text of a length, which shows none of its bytes.
pub open spec fn redacted_text(length: nat) -> Seq<char> {
    "TmuxText { len: "@ + decimal::decimal(length) + " }"@
}

impl Clone for TmuxText {
    fn clone(&self) -> (copy: Self)
        ensures
            copy@ == self@,
    {
        self.copy()
    }
}

impl PartialEq for TmuxText {
    fn eq(&self, other: &Self) -> (same: bool) {
        bytes_eq(self.bytes.as_slice(), other.bytes.as_slice())
    }
}

impl vstd::std_specs::cmp::PartialEqSpecImpl for TmuxText {
    open spec fn obeys_eq_spec() -> bool {
        true
    }

    open spec fn eq_spec(&self, other: &Self) -> bool {
        self@ == other@
    }
}

impl Eq for TmuxText {

}

/// The rendering of a truth value.
pub open spec fn bool_text(flag: bool) -> Seq<char> {
    if flag {
        "true"@
    } else {
        "false"@
    }
}

/// Render a truth value.
pub fn render_bool(flag: bool) -> (rendering: String)
    ensures
        rendering@ == bool_text(flag),
{
    if flag {
        "true".to_owned()
    } else {
        "false".to_owned()
    }
}

/// The rendering of the members of a structure.
pub open spec fn members_rendering(members: Seq<(Seq<char>, Seq<char>)>) -> Seq<char>
    decreases members.len(),
{
    if members.len() == 0 {
        Seq::empty()
    } else {
        members_rendering(members.drop_last()) + (if members.len() == 1 {
            " "@
        } else {
            ", "@
        }) + members.last().0 + ": "@ + members.last().1
    }
}

/// The rendering of a structure: its name, and the names and values of its
/// members.
pub open spec fn struct_rendering(
    name: Seq<char>,
    members: Seq<(Seq<char>, Seq<char>)>,
) -> Seq<char> {
    name + " {"@ + members_rendering(members) + " }"@
}

/// The rendering of a structure that holds more than what is shown.
pub open spec fn open_rendering(
    name: Seq<char>,
    members: Seq<(Seq<char>, Seq<char>)>,
) -> Seq<char> {
    name + " {"@ + members_rendering(members) + ", .. }"@
}

/// The members of a structure in contracts.
pub open spec fn member_views(members: Seq<(&'static str, String)>) -> Seq<(Seq<char>, Seq<char>)> {
    members.map_values(|member: (&'static str, String)| (member.0@, member.1@))
}

/// Render the name and the members of a structure.
fn render_members(name: &str, members: &Vec<(&'static str, String)>) -> (rendering: String)
    ensures
        rendering@ == name@ + " {"@ + members_rendering(member_views(members@)),
{
    let ghost views = member_views(members@);
    let mut rendering = name.to_owned();
    rendering.append(" {");
    let ghost opening = rendering@;
    let mut index: usize = 0;
    assert(views.take(0) =~= Seq::empty());
    assert(opening + members_rendering(views.take(0)) =~= opening);
    while index < members.len()
        invariant
            index <= members@.len(),
            views == member_views(members@),
            rendering@ == opening + members_rendering(views.take(index as int)),
        decreases members@.len() - index,
    {
        let ghost longer = views.take(index + 1);
        assert(longer.drop_last() =~= views.take(index as int));
        assert(longer.last() == (members@[index as int].0@, members@[index as int].1@));
        if index == 0 {
            rendering.append(" ");
        } else {
            rendering.append(", ");
        }
        rendering.append(members[index].0);
        rendering.append(": ");
        rendering.append(members[index].1.as_str());
        assert(rendering@ =~= opening + members_rendering(longer));
        index += 1;
    }
    assert(views.take(members@.len() as int) =~= views);
    rendering
}

/// Render a structure.
pub fn render_struct(name: &str, members: &Vec<(&'static str, String)>) -> (rendering: String)
    ensures
        rendering@ == struct_rendering(name@, member_views(members@)),
{
    let mut rendering = render_members(name, members);
    rendering.append(" }");
    rendering
}

/// Render a structure that holds more than what is shown.
pub fn render_open_struct(name: &str, members: &Vec<(&'static str, String)>) -> (rendering: String)
    ensures
        rendering@ == open_rendering(name@, member_views(members@)),
{
    let mut rendering = render_members(name, members);
    rendering.append(", .. }");
    rendering
}

/// What is kept of a list and read is what is kept and read of the list without
/// its last value, and the last value if it is kept.
pub proof fn lemma_kept_values<A, B>(
    values: Seq<A>,
    keep: spec_fn(A) -> bool,
    read: spec_fn(A) -> B,
)
    ensures
        values.len() == 0 ==> values.filter(keep).map_values(read) == Seq::<B>::empty(),
        values.len() > 0 ==> values.filter(keep).map_values(read) == if keep(values.last()) {
            values.drop_last().filter(keep).map_values(read).push(read(values.last()))
        } else {
            values.drop_last().filter(keep).map_values(read)
        },
{
    reveal(Seq::filter);
    if values.len() > 0 {
        let earlier = values.drop_last().filter(keep);
        if keep(values.last()) {
            assert(earlier.push(values.last()).map_values(read) =~= earlier.map_values(read).push(
                read(values.last()),
            ));
        }
    } else {
        assert(values.filter(keep).map_values(read) =~= Seq::empty());
    }
}

/// One byte string comes before another exactly where it is a proper beginning
/// of it, or the byte at the first place where they differ is smaller.
pub proof fn law_bytes_are_ordered_at_the_first_difference(left: Seq<u8>, right: Seq<u8>)
    ensures
        precedes(left, right) <==> exists|at: int|
            0 <= at <= left.len() && at < right.len() && #[trigger] left.take(at) == right.take(at)
                && (at == left.len() || left[at] < right[at]),
    decreases left.len(),
{
    if right.len() > 0 {
        if left.len() == 0 {
            assert(left.take(0) =~= right.take(0));
        } else if left[0] != right[0] {
            assert(left.take(0) =~= right.take(0));
            assert forall|at: int|
                0 <= at <= left.len() && at < right.len() && #[trigger] left.take(at) == right.take(
                    at,
                ) implies at == 0 by {
                if at > 0 {
                    assert(left.take(at)[0] == left[0]);
                    assert(right.take(at)[0] == right[0]);
                }
            }
        } else {
            let one = left.skip(1);
            let other = right.skip(1);
            law_bytes_are_ordered_at_the_first_difference(one, other);
            if precedes(left, right) {
                let at = choose|at: int|
                    0 <= at <= one.len() && at < other.len() && #[trigger] one.take(at)
                        == other.take(at) && (at == one.len() || one[at] < other[at]);
                let one_head = left.take(at + 1);
                let other_head = right.take(at + 1);
                assert forall|i: int| 0 <= i < at + 1 implies #[trigger] one_head[i]
                    == other_head[i] by {
                    if i > 0 {
                        assert(one.take(at)[i - 1] == other.take(at)[i - 1]);
                    }
                }
                assert(left.take(at + 1) =~= right.take(at + 1));
            }
            if exists|at: int|
                0 <= at <= left.len() && at < right.len() && #[trigger] left.take(at) == right.take(
                    at,
                ) && (at == left.len() || left[at] < right[at]) {
                let at = choose|at: int|
                    0 <= at <= left.len() && at < right.len() && #[trigger] left.take(at)
                        == right.take(at) && (at == left.len() || left[at] < right[at]);
                assert(at > 0);
                let one_head = one.take(at - 1);
                let other_head = other.take(at - 1);
                assert forall|i: int| 0 <= i < at - 1 implies #[trigger] one_head[i]
                    == other_head[i] by {
                    assert(left.take(at)[i + 1] == right.take(at)[i + 1]);
                }
                assert(one.take(at - 1) =~= other.take(at - 1));
            }
        }
    }
}

/// A text occurs in what it was joined from, and a text that occurs in another
/// parts it into what stands in front and what stands behind.
pub proof fn law_occurrences_part_a_text<T>(needle: Seq<T>, whole: Seq<T>)
    ensures
        occurs_in(needle, whole) <==> exists|front: Seq<T>, back: Seq<T>|
            whole == #[trigger] (front + needle + back),
{
    if occurs_in(needle, whole) {
        let start = choose|start: int|
            0 <= start <= whole.len() - needle.len() && #[trigger] whole.subrange(
                start,
                start + needle.len(),
            ) == needle;
        let front = whole.take(start);
        let back = whole.skip(start + needle.len());
        assert(front + whole.subrange(start, start + needle.len()) + back =~= whole);
        assert(whole == front + needle + back);
    }
    if exists|front: Seq<T>, back: Seq<T>| whole == #[trigger] (front + needle + back) {
        let (front, back) = choose|front: Seq<T>, back: Seq<T>|
            whole == #[trigger] (front + needle + back);
        let start = front.len() as int;
        assert(whole.subrange(start, start + needle.len()) =~= needle);
    }
}

/// The rendering of a struct lists its members in their order, each behind its
/// name and parted by commas.
pub proof fn law_renderings_list_their_members(
    name: Seq<char>,
    members: Seq<(Seq<char>, Seq<char>)>,
    member: Seq<char>,
    value: Seq<char>,
)
    ensures
        members_rendering(Seq::empty()) == Seq::<char>::empty(),
        members_rendering(seq![(member, value)]) == " "@ + member + ": "@ + value,
        members.len() > 0 ==> members_rendering(members.push((member, value)))
            == members_rendering(members) + ", "@ + member + ": "@ + value,
        struct_rendering(name, members) == name + " {"@ + members_rendering(members) + " }"@,
        open_rendering(name, members) == name + " {"@ + members_rendering(members) + ", .. }"@,
{
    let one = seq![(member, value)];
    assert(one.drop_last() =~= Seq::empty());
    assert(members_rendering(one.drop_last()) =~= Seq::<char>::empty());
    assert(members_rendering(one) =~= " "@ + member + ": "@ + value);
    let longer = members.push((member, value));
    assert(longer.drop_last() =~= members);
}

} // verus!
