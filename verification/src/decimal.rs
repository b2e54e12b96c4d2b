//! Canonical decimal notation: no sign on zero, no leading zero, no plus.

use vstd::prelude::*;
use vstd::string::*;

use crate::text;

verus! {

/// One decimal digit as a character.
pub open spec fn digit(value: nat) -> char {
    (48 + value) as char
}

/// The canonical decimal notation of a natural number.
pub open spec fn decimal(value: nat) -> Seq<char>
    decreases value,
{
    if value < 10 {
        seq![digit(value)]
    } else {
        decimal(value / 10).push(digit(value % 10))
    }
}

/// The canonical decimal notation of an integer.
pub open spec fn signed_decimal(value: int) -> Seq<char> {
    if value < 0 {
        seq!['-'] + decimal((-value) as nat)
    } else {
        decimal(value as nat)
    }
}

/// Whether every byte is an ASCII digit.
pub open spec fn all_digits(bytes: Seq<u8>) -> bool {
    forall|i: int| 0 <= i < bytes.len() ==> 48 <= #[trigger] bytes[i] <= 57
}

/// The number a byte string of digits denotes.
pub open spec fn digits_value(bytes: Seq<u8>) -> nat
    decreases bytes.len(),
{
    if bytes.len() == 0 {
        0
    } else {
        digits_value(bytes.drop_last()) * 10 + (bytes.last() - 48) as nat
    }
}

/// Whether every byte is a decimal digit and there is one.
pub open spec fn digits(bytes: Seq<u8>) -> bool {
    bytes.len() > 0 && all_digits(bytes)
}

/// Whether a byte string of digits carries no leading zero.
pub open spec fn canonical_digits(bytes: Seq<u8>) -> bool {
    &&& all_digits(bytes)
    &&& bytes.len() > 0
    &&& bytes.len() > 1 ==> bytes[0] != 48
}

proof fn lemma_decimal_digits(value: nat)
    ensures
        decimal(value).len() > 0,
        forall|i: int|
            0 <= i < decimal(value).len() ==> '0' <= #[trigger] decimal(value)[i] <= '9',
        canonical_digits(text::ascii(decimal(value))),
        digits_value(text::ascii(decimal(value))) == value,
        value > 0 ==> text::ascii(decimal(value))[0] != 48,
    decreases value,
{
    let bytes = text::ascii(decimal(value));
    if value < 10 {
        assert(bytes.drop_last() =~= Seq::<u8>::empty());
        reveal_with_fuel(digits_value, 2);
        assert(decimal(value)[0] == digit(value));
    } else {
        lemma_decimal_digits(value / 10);
        let head = text::ascii(decimal(value / 10));
        assert(bytes.drop_last() =~= head);
        assert(bytes.last() == 48 + value % 10);
        assert(bytes[0] == head[0]);
        assert forall|i: int| 0 <= i < bytes.len() implies 48 <= #[trigger] bytes[i] <= 57 by {
            if i < head.len() {
                assert(bytes[i] == head[i]);
            }
        }
        assert forall|i: int| 0 <= i < decimal(value).len() implies '0' <= #[trigger] decimal(
            value,
        )[i] <= '9' by {
            if i < head.len() {
                assert(decimal(value)[i] == decimal(value / 10)[i]);
            }
        }
    }
}

/// Canonical digits are the notation of the number that they denote.
proof fn lemma_canonical_digits(bytes: Seq<u8>)
    requires
        canonical_digits(bytes),
    ensures
        bytes == text::ascii(decimal(digits_value(bytes))),
        bytes[0] != 48 ==> digits_value(bytes) > 0,
    decreases bytes.len(),
{
    let head = bytes.drop_last();
    reveal_with_fuel(digits_value, 2);
    if bytes.len() == 1 {
        assert(head =~= Seq::<u8>::empty());
        assert(digits_value(bytes) == bytes[0] - 48);
        assert(bytes =~= text::ascii(decimal(digits_value(bytes))));
    } else {
        assert(head[0] == bytes[0]);
        assert forall|i: int| 0 <= i < head.len() implies 48 <= #[trigger] head[i] <= 57 by {
            assert(head[i] == bytes[i]);
        }
        lemma_canonical_digits(head);
        let value = digits_value(bytes);
        assert(value == digits_value(head) * 10 + (bytes.last() - 48));
        assert(value / 10 == digits_value(head));
        assert(value % 10 == bytes.last() - 48);
        assert(value >= 10);
        assert(decimal(value) == decimal(value / 10).push(digit(value % 10)));
        let notation = text::ascii(decimal(value));
        let shorter = text::ascii(decimal(value / 10));
        assert(head == shorter);
        assert(notation.len() == shorter.len() + 1);
        assert forall|i: int| 0 <= i < bytes.len() implies bytes[i] == notation[i] by {
            if i < head.len() {
                assert(bytes[i] == head[i]);
                assert(notation[i] == shorter[i]);
            } else {
                assert(bytes[i] == bytes.last());
            }
        }
        assert(bytes =~= notation);
    }
}

/// The notation of a number determines it.
pub proof fn lemma_decimal_is_injective(left: nat, right: nat)
    requires
        text::ascii(decimal(left)) == text::ascii(decimal(right)),
    ensures
        left == right,
{
    lemma_decimal_digits(left);
    lemma_decimal_digits(right);
}

/// The signed notation of a number determines it.
pub proof fn lemma_signed_decimal_is_injective(left: int, right: int)
    requires
        text::ascii(signed_decimal(left)) == text::ascii(signed_decimal(right)),
    ensures
        left == right,
{
    lemma_signed_shape(left);
    lemma_signed_shape(right);
    lemma_decimal_digits(if left < 0 { (-left) as nat } else { left as nat });
    lemma_decimal_digits(if right < 0 { (-right) as nat } else { right as nat });
    if left < 0 && right < 0 {
        assert(text::ascii(signed_decimal(left)).skip(1) == text::ascii(signed_decimal(right)).skip(1));
        lemma_decimal_is_injective((-left) as nat, (-right) as nat);
    } else if left >= 0 && right >= 0 {
        lemma_decimal_is_injective(left as nat, right as nat);
    } else {
        assert(text::ascii(signed_decimal(left))[0] == text::ascii(signed_decimal(right))[0]);
    }
}

proof fn lemma_signed_shape(value: int)
    ensures
        value < 0 ==> text::ascii(signed_decimal(value))[0] == 45 && text::ascii(signed_decimal(value)).skip(1)
            == text::ascii(decimal((-value) as nat)),
        value >= 0 ==> 48 <= text::ascii(signed_decimal(value))[0] <= 57,
{
    if value < 0 {
        assert(text::ascii(signed_decimal(value)).skip(1) =~= text::ascii(decimal((-value) as nat)));
    } else {
        lemma_decimal_digits(value as nat);
    }
}

/// Every character of a signed notation is ASCII.
pub proof fn lemma_signed_decimal_is_ascii(value: int)
    ensures
        vstd::utf8::is_ascii_chars(signed_decimal(value)),
        signed_decimal(value).len() > 0,
{
    let magnitude = if value < 0 { (-value) as nat } else { value as nat };
    lemma_decimal_digits(magnitude);
    assert forall|i: int| 0 <= i < signed_decimal(value).len() implies (
    #[trigger] signed_decimal(value)[i] as nat) < 128 by {
        if value < 0 && i > 0 {
            assert(signed_decimal(value)[i] == decimal(magnitude)[i - 1]);
        }
    }
}

/// Read canonical unsigned decimal notation.
pub fn parse_unsigned_decimal(bytes: &[u8]) -> (parsed: Option<u128>)
    ensures
        match parsed {
            Some(value) => bytes@ == text::ascii(decimal(value as nat)),
            None => forall|value: u128| bytes@ != text::ascii(#[trigger] decimal(value as nat)),
        },
{
    if bytes.len() == 0 || (bytes.len() > 1 && bytes[0] == 48) {
        assert forall|value: u128| bytes@ != text::ascii(#[trigger] decimal(value as nat)) by {
            lemma_decimal_digits(value as nat);
        }
        return None;
    }
    let mut total: u128 = 0;
    let mut index: usize = 0;
    while index < bytes.len()
        invariant
            index <= bytes@.len(),
            bytes@.len() > 0,
            bytes@.len() > 1 ==> bytes@[0] != 48,
            all_digits(bytes@.take(index as int)),
            total == digits_value(bytes@.take(index as int)),
        decreases bytes@.len() - index,
    {
        let byte = bytes[index];
        if byte < 48 || byte > 57 {
            assert forall|value: u128| bytes@ != text::ascii(#[trigger] decimal(value as nat)) by {
                lemma_decimal_digits(value as nat);
                assert(bytes@[index as int] == byte);
            }
            return None;
        }
        let next: u128 = (byte - 48) as u128;
        let ghost longer = bytes@.take(index + 1);
        proof {
            assert(longer.drop_last() =~= bytes@.take(index as int));
            assert(longer.last() == byte);
            assert(digits_value(longer) == total * 10 + next);
        }
        if total > (u128::MAX - next) / 10 {
            assert forall|value: u128| bytes@ != text::ascii(#[trigger] decimal(value as nat)) by {
                lemma_decimal_digits(value as nat);
                if bytes@ == text::ascii(decimal(value as nat)) {
                    lemma_prefix_is_smaller(bytes@, index + 1);
                    assert(digits_value(longer) > u128::MAX);
                }
            }
            return None;
        }
        total = total * 10 + next;
        index += 1;
    }
    assert(bytes@.take(bytes@.len() as int) =~= bytes@);
    proof {
        lemma_canonical_digits(bytes@);
    }
    Some(total)
}

/// A prefix of digits denotes no more than the whole.
proof fn lemma_prefix_is_smaller(bytes: Seq<u8>, length: int)
    requires
        0 <= length <= bytes.len(),
        all_digits(bytes),
    ensures
        digits_value(bytes.take(length)) <= digits_value(bytes),
    decreases bytes.len() - length,
{
    if length < bytes.len() {
        let head = bytes.drop_last();
        assert forall|i: int| 0 <= i < head.len() implies 48 <= #[trigger] head[i] <= 57 by {
            assert(head[i] == bytes[i]);
        }
        lemma_prefix_is_smaller(head, length);
        assert(head.take(length) =~= bytes.take(length));
        assert(bytes[bytes.len() - 1] >= 48);
    } else {
        assert(bytes.take(length) =~= bytes);
    }
}

/// Read canonical signed decimal notation.
pub fn parse_signed_decimal(bytes: &[u8]) -> (parsed: Option<i128>)
    ensures
        match parsed {
            Some(value) => bytes@ == text::ascii(signed_decimal(value as int)),
            None => forall|value: i128| bytes@ != text::ascii(#[trigger] signed_decimal(value as int)),
        },
{
    if bytes.len() > 0 && bytes[0] == 45 {
        let digits = vstd::slice::slice_subrange(bytes, 1, bytes.len());
        proof {
            assert(digits@ =~= bytes@.skip(1));
            assert forall|value: i128| bytes@ == text::ascii(#[trigger] signed_decimal(value as int))
                implies value < 0 && digits@ == text::ascii(decimal((-value) as nat)) by {
                lemma_signed_shape(value as int);
            }
        }
        match parse_unsigned_decimal(digits) {
            Some(magnitude) => {
                if magnitude == 0 || magnitude > 0x8000_0000_0000_0000_0000_0000_0000_0000u128 {
                    assert forall|value: i128| bytes@ != text::ascii(#[trigger] signed_decimal(value as int))
                        by {
                        if bytes@ == text::ascii(signed_decimal(value as int)) {
                            lemma_decimal_is_injective(magnitude as nat, (-value) as nat);
                        }
                    }
                    return None;
                }
                let value: i128 = if magnitude == 0x8000_0000_0000_0000_0000_0000_0000_0000u128 {
                    i128::MIN
                } else {
                    -(magnitude as i128)
                };
                assert(bytes@ =~= text::ascii(signed_decimal(value as int))) by {
                    assert forall|i: int| 0 < i < bytes@.len() implies bytes@[i] == digits@[i - 1] by {}
                }
                Some(value)
            },
            None => {
                assert forall|value: i128| bytes@ != text::ascii(#[trigger] signed_decimal(value as int)) by {
                    if bytes@ == text::ascii(signed_decimal(value as int)) {
                        let magnitude = (-value) as u128;
                        assert(decimal(magnitude as nat) == decimal((-value) as nat));
                    }
                }
                None
            },
        }
    } else {
        proof {
            assert forall|value: i128| bytes@ == text::ascii(#[trigger] signed_decimal(value as int))
                implies value >= 0 && bytes@ == text::ascii(decimal(value as nat)) by {
                lemma_signed_shape(value as int);
            }
        }
        match parse_unsigned_decimal(bytes) {
            Some(magnitude) => {
                if magnitude > 0x7fff_ffff_ffff_ffff_ffff_ffff_ffff_ffffu128 {
                    assert forall|value: i128| bytes@ != text::ascii(#[trigger] signed_decimal(value as int))
                        by {
                        if bytes@ == text::ascii(signed_decimal(value as int)) {
                            lemma_decimal_is_injective(magnitude as nat, value as nat);
                        }
                    }
                    return None;
                }
                Some(magnitude as i128)
            },
            None => {
                assert forall|value: i128| bytes@ != text::ascii(#[trigger] signed_decimal(value as int)) by {
                    if bytes@ == text::ascii(signed_decimal(value as int)) {
                        let magnitude = value as u128;
                        assert(decimal(magnitude as nat) == decimal(value as nat));
                    }
                }
                None
            },
        }
    }
}

/// The string holding one digit.
fn digit_str(value: u128) -> (text: &'static str)
    requires
        value < 10,
    ensures
        text@ == seq![digit(value as nat)],
{
    proof {
        reveal_strlit("0");
        reveal_strlit("1");
        reveal_strlit("2");
        reveal_strlit("3");
        reveal_strlit("4");
        reveal_strlit("5");
        reveal_strlit("6");
        reveal_strlit("7");
        reveal_strlit("8");
        reveal_strlit("9");
    }
    let text: &'static str = if value == 0 {
        "0"
    } else if value == 1 {
        "1"
    } else if value == 2 {
        "2"
    } else if value == 3 {
        "3"
    } else if value == 4 {
        "4"
    } else if value == 5 {
        "5"
    } else if value == 6 {
        "6"
    } else if value == 7 {
        "7"
    } else if value == 8 {
        "8"
    } else {
        "9"
    };
    assert(text@ =~= seq![digit(value as nat)]);
    text
}

/// Read the digits from a position to the end, of a number up to a limit.
/// Leading zeros are accepted.
pub fn parse_digits(bytes: &[u8], start: usize, limit: u64) -> (number: Option<u64>)
    requires
        start <= bytes@.len(),
    ensures
        match number {
            Some(number) => digits(bytes@.skip(start as int)) && digits_value(
                bytes@.skip(start as int),
            ) == number && number <= limit,
            None => !(digits(bytes@.skip(start as int)) && digits_value(bytes@.skip(start as int))
                <= limit),
        },
{
    let ghost spelled = bytes@.skip(start as int);
    if bytes.len() == start {
        return None;
    }
    let mut value: u128 = 0;
    let mut index: usize = start;
    assert(spelled.take(0) =~= Seq::<u8>::empty());
    while index < bytes.len()
        invariant
            start <= index <= bytes@.len(),
            spelled == bytes@.skip(start as int),
            all_digits(spelled.take(index - start)),
            value == digits_value(spelled.take(index - start)),
            value <= limit,
        decreases bytes@.len() - index,
    {
        let byte = bytes[index];
        assert(spelled[index - start] == byte);
        if byte < 48 || byte > 57 {
            assert(!all_digits(spelled));
            return None;
        }
        proof {
            let longer = spelled.take(index + 1 - start);
            assert(longer.drop_last() =~= spelled.take(index - start));
            assert(longer.last() == byte);
            assert forall|i: int| 0 <= i < longer.len() implies 48 <= #[trigger] longer[i]
                <= 57 by {
                if i < index - start {
                    assert(longer[i] == spelled.take(index - start)[i]);
                }
            }
        }
        value = value * 10 + (byte - 48) as u128;
        if value > limit as u128 {
            proof {
                if all_digits(spelled) {
                    lemma_digits_grow(spelled, index + 1 - start);
                }
            }
            return None;
        }
        index += 1;
    }
    assert(spelled.take(spelled.len() as int) =~= spelled);
    Some(value as u64)
}

/// A number that grows digit by digit never shrinks.
proof fn lemma_digits_grow(bytes: Seq<u8>, length: int)
    requires
        all_digits(bytes),
        0 <= length <= bytes.len(),
    ensures
        digits_value(bytes.take(length)) <= digits_value(bytes),
    decreases bytes.len() - length,
{
    if length < bytes.len() {
        let longer = bytes.take(length + 1);
        lemma_digits_grow(bytes, length + 1);
        assert(longer.drop_last() =~= bytes.take(length));
        assert(longer.last() == bytes[length]);
    } else {
        assert(bytes.take(length) =~= bytes);
    }
}

/// Write an unsigned number in canonical decimal notation.
pub fn format_unsigned(value: u128) -> (text: String)
    ensures
        text@ == decimal(value as nat),
    decreases value,
{
    if value < 10 {
        digit_str(value).to_owned()
    } else {
        let mut text = format_unsigned(value / 10);
        text.append(digit_str(value % 10));
        assert(text@ =~= decimal(value as nat));
        text
    }
}

/// Write a signed number in canonical decimal notation.
pub fn format_signed(value: i128) -> (text: String)
    ensures
        text@ == signed_decimal(value as int),
{
    if value >= 0 {
        return format_unsigned(value as u128);
    }
    let magnitude: u128 = if value == i128::MIN {
        0x8000_0000_0000_0000_0000_0000_0000_0000u128
    } else {
        (-value) as u128
    };
    proof {
        reveal_strlit("-");
    }
    let mut text = "-".to_owned();
    text.append(format_unsigned(magnitude).as_str());
    assert(text@ =~= signed_decimal(value as int));
    text
}

/// Reading back what was written gives the number, and nothing else reads as it.
pub proof fn law_signed_notation_round_trips(value: int, other: int)
    ensures
        signed_decimal(value) == signed_decimal(other) <==> value == other,
{
    if signed_decimal(value) == signed_decimal(other) {
        lemma_signed_decimal_is_injective(value, other);
    }
}

/// A notation consists of digits that denote its number.
pub proof fn lemma_notation_digits(value: nat)
    ensures
        text::ascii(decimal(value)).len() > 0,
        all_digits(text::ascii(decimal(value))),
        digits_value(text::ascii(decimal(value))) == value,
{
    lemma_decimal_digits(value);
}

/// One more digit multiplies a number by ten and adds the digit, in the
/// notation of a number and in what digits denote. A notation of one digit is
/// the digit, and a minus stands in front of the notation of what is left of a
/// negative number.
pub proof fn law_notation_is_positional(value: nat, next: nat, bytes: Seq<u8>)
    requires
        next < 10,
    ensures
        decimal(next) == seq![(48 + next) as char],
        value > 0 ==> decimal(10 * value + next) == decimal(value).push((48 + next) as char),
        digits_value(Seq::empty()) == 0,
        digits_value(bytes.push((48 + next) as u8)) == 10 * digits_value(bytes) + next,
        digits_value(text::ascii(decimal(value))) == value,
        value > 0 ==> signed_decimal(-value) == seq!['-'] + signed_decimal(value as int),
        signed_decimal(value as int) == decimal(value),
{
    lemma_decimal_digits(value);
    assert((10 * value + next) / 10 == value);
    assert((10 * value + next) % 10 == next);
    let longer = bytes.push((48 + next) as u8);
    assert(longer.drop_last() =~= bytes);
}

/// Bytes are digits exactly where there is one and each lies between `0` and
/// `9`.
pub proof fn law_digits_lie_between_zero_and_nine(bytes: Seq<u8>)
    ensures
        digits(bytes) <==> bytes.len() > 0 && forall|i: int|
            0 <= i < bytes.len() ==> '0' as u8 <= #[trigger] bytes[i] <= '9' as u8,
{
}

/// The characters of a notation are digits.
pub proof fn lemma_notation_characters(value: nat)
    ensures
        decimal(value).len() > 0,
        forall|i: int| 0 <= i < decimal(value).len() ==> '0' <= #[trigger] decimal(value)[i] <= '9',
{
    lemma_decimal_digits(value);
}

} // verus!
