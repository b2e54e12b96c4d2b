//! The values of snapshot fields, and how they are decoded.

use vstd::prelude::*;
use vstd::string::*;

use crate::decimal;
use crate::decimal::parse_signed_decimal;
use crate::decimal::parse_unsigned_decimal;
use crate::formats::catalog::DecoderKind;
use crate::query::filterable::FilterEnum;
use crate::target;
use crate::target::PaneId;
use crate::target::SessionId;
use crate::target::WindowId;
use crate::text;
use crate::text::bytes_eq;
use crate::text::copy_bytes;
use crate::text::TmuxText;

verus! {

/// Availability evidence retained for a snapshot field.
#[derive(Clone, Debug, PartialEq, Eq, Structural)]
pub enum Availability<T> {
    /// The detected numbered release predates the field.
    Unsupported,
    /// A development build provides no numbered availability proof.
    Unproven,
    /// Tmux emitted an empty value for a conditionally available field.
    Absent,
    /// Tmux emitted a decoded value, including preserved empty text.
    Available(T),
}

impl<T> Availability<T> {
    /// Borrow the contained value.
    pub fn as_ref(&self) -> (borrowed: Availability<&T>)
        ensures
            match self {
                Availability::Unsupported => borrowed is Unsupported,
                Availability::Unproven => borrowed is Unproven,
                Availability::Absent => borrowed is Absent,
                Availability::Available(value) => borrowed == Availability::Available(value),
            },
    {
        match self {
            Availability::Unsupported => Availability::Unsupported,
            Availability::Unproven => Availability::Unproven,
            Availability::Absent => Availability::Absent,
            Availability::Available(value) => Availability::Available(value),
        }
    }

    /// Discard the reason a value is missing and keep only the value.
    pub fn available(self) -> (value: Option<T>)
        ensures
            value == match self {
                Availability::Available(value) => Some(value),
                _ => None,
            },
    {
        match self {
            Availability::Available(value) => Some(value),
            Availability::Unsupported | Availability::Unproven | Availability::Absent => None,
        }
    }

    /// Report whether tmux emitted a decoded value.
    pub fn is_available(&self) -> (available: bool)
        ensures
            available == (self is Available),
    {
        matches!(self, Availability::Available(_))
    }
}

impl<T: Copy> Availability<&T> {
    /// Copy a borrowed scalar out of its evidence.
    pub fn copied(self) -> (copied: Availability<T>)
        ensures
            match self {
                Availability::Unsupported => copied is Unsupported,
                Availability::Unproven => copied is Unproven,
                Availability::Absent => copied is Absent,
                Availability::Available(value) => copied == Availability::Available(*value),
            },
    {
        match self {
            Availability::Unsupported => Availability::Unsupported,
            Availability::Unproven => Availability::Unproven,
            Availability::Absent => Availability::Absent,
            Availability::Available(value) => Availability::Available(*value),
        }
    }
}

/// The states of a pane's progress bar.
#[derive(Clone, Copy, Debug, PartialEq, Eq, Structural)]
#[non_exhaustive]
pub enum PaneProgressState {
    /// Progress display is hidden.
    Hidden,
    /// Progress display is normal.
    Normal,
    /// Progress display reports an error.
    Error,
    /// Progress is indeterminate.
    Indeterminate,
    /// Progress is paused.
    Paused,
}

impl PaneProgressState {
    /// The name of the variant, in contracts.
    pub open spec fn label(self) -> Seq<char> {
        match self {
            PaneProgressState::Hidden => "Hidden"@,
            PaneProgressState::Normal => "Normal"@,
            PaneProgressState::Error => "Error"@,
            PaneProgressState::Indeterminate => "Indeterminate"@,
            PaneProgressState::Paused => "Paused"@,
        }
    }

    /// The name of the variant.
    pub fn render(self) -> (label: &'static str)
        ensures
            label@ == self.label(),
    {
        match self {
            PaneProgressState::Hidden => "Hidden",
            PaneProgressState::Normal => "Normal",
            PaneProgressState::Error => "Error",
            PaneProgressState::Indeterminate => "Indeterminate",
            PaneProgressState::Paused => "Paused",
        }
    }
}

impl FilterEnum for PaneProgressState {
    open spec fn variant_names() -> Seq<Seq<char>> {
        seq!["hidden"@, "normal"@, "error"@, "indeterminate"@, "paused"@]
    }

    open spec fn name(&self) -> Seq<char> {
        match self {
            PaneProgressState::Hidden => "hidden"@,
            PaneProgressState::Normal => "normal"@,
            PaneProgressState::Error => "error"@,
            PaneProgressState::Indeterminate => "indeterminate"@,
            PaneProgressState::Paused => "paused"@,
        }
    }

    fn filter_variants() -> (names: Vec<&'static str>) {
        let names = vec!["hidden", "normal", "error", "indeterminate", "paused"];
        assert(names@.map_values(|name: &'static str| name@) =~= Self::variant_names());
        names
    }

    fn filter_name(&self) -> (name: &'static str) {
        proof {
            let names = Self::variant_names();
            assert(names[0] == "hidden"@);
            assert(names[1] == "normal"@);
            assert(names[2] == "error"@);
            assert(names[3] == "indeterminate"@);
            assert(names[4] == "paused"@);
        }
        match self {
            PaneProgressState::Hidden => "hidden",
            PaneProgressState::Normal => "normal",
            PaneProgressState::Error => "error",
            PaneProgressState::Indeterminate => "indeterminate",
            PaneProgressState::Paused => "paused",
        }
    }
}

/// The value of a field.
pub enum FieldScalar {
    Ascii(TmuxText),
    Text(TmuxText),
    Bool(bool),
    U8(u8),
    U32(u32),
    U64(u64),
    I32(i32),
    Timestamp(i64),
    SessionId(SessionId),
    WindowId(WindowId),
    PaneId(PaneId),
    PaneProgress(u8),
    PaneProgressState(PaneProgressState),
}

/// The value of a field in contracts.
#[verifier::ext_equal]
pub ghost enum ScalarV {
    Ascii(Seq<u8>),
    Text(Seq<u8>),
    Bool(bool),
    U8(u8),
    U32(u32),
    U64(u64),
    I32(i32),
    Timestamp(i64),
    SessionId(u32),
    WindowId(u32),
    PaneId(u32),
    PaneProgress(u8),
    PaneProgressState(PaneProgressState),
}

impl ScalarV {
    /// The decoder that gives such a value.
    pub open spec fn kind(self) -> DecoderKind {
        match self {
            ScalarV::Ascii(_) => DecoderKind::Ascii,
            ScalarV::Text(_) => DecoderKind::Text,
            ScalarV::Bool(_) => DecoderKind::Bool,
            ScalarV::U8(_) => DecoderKind::U8,
            ScalarV::U32(_) => DecoderKind::U32,
            ScalarV::U64(_) => DecoderKind::U64,
            ScalarV::I32(_) => DecoderKind::I32,
            ScalarV::Timestamp(_) => DecoderKind::Timestamp,
            ScalarV::SessionId(_) => DecoderKind::SessionId,
            ScalarV::WindowId(_) => DecoderKind::WindowId,
            ScalarV::PaneId(_) => DecoderKind::PaneId,
            ScalarV::PaneProgress(_) => DecoderKind::PaneProgress,
            ScalarV::PaneProgressState(_) => DecoderKind::PaneProgressState,
        }
    }
}

impl FieldScalar {
    /// The value in contracts.
    pub open spec fn view(&self) -> ScalarV {
        match self {
            FieldScalar::Ascii(text) => ScalarV::Ascii(text@),
            FieldScalar::Text(text) => ScalarV::Text(text@),
            FieldScalar::Bool(value) => ScalarV::Bool(*value),
            FieldScalar::U8(value) => ScalarV::U8(*value),
            FieldScalar::U32(value) => ScalarV::U32(*value),
            FieldScalar::U64(value) => ScalarV::U64(*value),
            FieldScalar::I32(value) => ScalarV::I32(*value),
            FieldScalar::Timestamp(value) => ScalarV::Timestamp(*value),
            FieldScalar::SessionId(id) => ScalarV::SessionId(id@),
            FieldScalar::WindowId(id) => ScalarV::WindowId(id@),
            FieldScalar::PaneId(id) => ScalarV::PaneId(id@),
            FieldScalar::PaneProgress(value) => ScalarV::PaneProgress(*value),
            FieldScalar::PaneProgressState(state) => ScalarV::PaneProgressState(*state),
        }
    }
}

/// Whether every byte is ASCII.
pub open spec fn is_ascii(bytes: Seq<u8>) -> bool {
    forall|i: int| 0 <= i < bytes.len() ==> #[trigger] bytes[i] < 128
}

/// The integer in a range whose canonical notation bytes are.
pub open spec fn integer_denoted(bytes: Seq<u8>, minimum: int, maximum: int) -> Option<int> {
    if exists|number: int|
        minimum <= number <= maximum && bytes == text::ascii(
            #[trigger] decimal::signed_decimal(number),
        ) {
        Some(
            choose|number: int|
                minimum <= number <= maximum && bytes == text::ascii(
                    #[trigger] decimal::signed_decimal(number),
                ),
        )
    } else {
        None
    }
}

/// The progress state that bytes name.
pub open spec fn progress_denoted(bytes: Seq<u8>) -> Option<PaneProgressState> {
    if bytes == text::ascii("hidden"@) {
        Some(PaneProgressState::Hidden)
    } else if bytes == text::ascii("normal"@) {
        Some(PaneProgressState::Normal)
    } else if bytes == text::ascii("error"@) {
        Some(PaneProgressState::Error)
    } else if bytes == text::ascii("indeterminate"@) {
        Some(PaneProgressState::Indeterminate)
    } else if bytes == text::ascii("paused"@) {
        Some(PaneProgressState::Paused)
    } else {
        None
    }
}

/// The value that a decoder reads in bytes.
pub open spec fn decoded(kind: DecoderKind, bytes: Seq<u8>) -> Option<ScalarV> {
    match kind {
        DecoderKind::Ascii => if is_ascii(bytes) {
            Some(ScalarV::Ascii(bytes))
        } else {
            None
        },
        DecoderKind::Text => Some(ScalarV::Text(bytes)),
        DecoderKind::Bool => if bytes == seq![48u8] {
            Some(ScalarV::Bool(false))
        } else if bytes == seq![49u8] {
            Some(ScalarV::Bool(true))
        } else {
            None
        },
        DecoderKind::U8 => match integer_denoted(bytes, 0, u8::MAX as int) {
            Some(number) => Some(ScalarV::U8(number as u8)),
            None => None,
        },
        DecoderKind::U32 => match integer_denoted(bytes, 0, u32::MAX as int) {
            Some(number) => Some(ScalarV::U32(number as u32)),
            None => None,
        },
        DecoderKind::U64 => match integer_denoted(bytes, 0, u64::MAX as int) {
            Some(number) => Some(ScalarV::U64(number as u64)),
            None => None,
        },
        DecoderKind::I32 => match integer_denoted(bytes, i32::MIN as int, i32::MAX as int) {
            Some(number) => Some(ScalarV::I32(number as i32)),
            None => None,
        },
        DecoderKind::Timestamp => match integer_denoted(bytes, i64::MIN as int, i64::MAX as int) {
            Some(number) => Some(ScalarV::Timestamp(number as i64)),
            None => None,
        },
        DecoderKind::SessionId => match target::id_number(36, bytes) {
            Some(number) => Some(ScalarV::SessionId(number)),
            None => None,
        },
        DecoderKind::WindowId => match target::id_number(64, bytes) {
            Some(number) => Some(ScalarV::WindowId(number)),
            None => None,
        },
        DecoderKind::PaneId => match target::id_number(37, bytes) {
            Some(number) => Some(ScalarV::PaneId(number)),
            None => None,
        },
        DecoderKind::PaneProgress => match integer_denoted(bytes, 0, 100) {
            Some(number) => Some(ScalarV::PaneProgress(number as u8)),
            None => None,
        },
        DecoderKind::PaneProgressState => match progress_denoted(bytes) {
            Some(state) => Some(ScalarV::PaneProgressState(state)),
            None => None,
        },
    }
}

/// A notation denotes its number and no other.
proof fn lemma_integer_denoted(bytes: Seq<u8>, number: int, minimum: int, maximum: int)
    requires
        bytes == text::ascii(decimal::signed_decimal(number)),
    ensures
        integer_denoted(bytes, minimum, maximum) == if minimum <= number <= maximum {
            Some(number)
        } else {
            None
        },
{
    assert forall|other: int|
        bytes == text::ascii(#[trigger] decimal::signed_decimal(other)) implies other == number by {
        decimal::lemma_signed_decimal_is_injective(other, number);
    }
    if minimum <= number <= maximum {
        assert(bytes == text::ascii(decimal::signed_decimal(number)));
    }
}

/// Read an unsigned integer in canonical notation.
fn unsigned_value(bytes: &[u8], maximum: u128) -> (value: Option<u128>)
    ensures
        match value {
            Some(value) => value <= maximum && integer_denoted(bytes@, 0, maximum as int) == Some(
                value as int,
            ),
            None => integer_denoted(bytes@, 0, maximum as int) is None,
        },
{
    match parse_unsigned_decimal(bytes) {
        Some(value) => {
            proof {
                lemma_integer_denoted(bytes@, value as int, 0, maximum as int);
            }
            if value <= maximum {
                Some(value)
            } else {
                None
            }
        },
        None => {
            proof {
                assert forall|number: int| 0 <= number <= maximum implies bytes@ != text::ascii(
                    #[trigger] decimal::signed_decimal(number),
                ) by {
                    let value = number as u128;
                    assert(bytes@ != text::ascii(decimal::decimal(value as nat)));
                }
            }
            None
        },
    }
}

/// Read a signed integer in canonical notation.
fn signed_value(bytes: &[u8], minimum: i128, maximum: i128) -> (value: Option<i128>)
    ensures
        match value {
            Some(value) => minimum <= value <= maximum && integer_denoted(
                bytes@,
                minimum as int,
                maximum as int,
            ) == Some(value as int),
            None => integer_denoted(bytes@, minimum as int, maximum as int) is None,
        },
{
    match parse_signed_decimal(bytes) {
        Some(value) => {
            proof {
                lemma_integer_denoted(bytes@, value as int, minimum as int, maximum as int);
            }
            if minimum <= value && value <= maximum {
                Some(value)
            } else {
                None
            }
        },
        None => {
            proof {
                assert forall|number: int| minimum <= number <= maximum implies bytes@
                    != text::ascii(#[trigger] decimal::signed_decimal(number)) by {
                    let value = number as i128;
                    assert(bytes@ != text::ascii(decimal::signed_decimal(value as int)));
                }
            }
            None
        },
    }
}

/// Read ASCII text.
pub fn decode_ascii(bytes: &[u8]) -> (text: Option<TmuxText>)
    ensures
        match text {
            Some(text) => is_ascii(bytes@) && text@ == bytes@,
            None => !is_ascii(bytes@),
        },
{
    let mut index: usize = 0;
    while index < bytes.len()
        invariant
            index <= bytes@.len(),
            forall|i: int| 0 <= i < index ==> #[trigger] bytes@[i] < 128,
        decreases bytes@.len() - index,
    {
        if bytes[index] >= 128 {
            return None;
        }
        index += 1;
    }
    Some(TmuxText::from_bytes(copy_bytes(bytes)))
}

/// Keep bytes as text.
pub fn decode_text(bytes: &[u8]) -> (text: TmuxText)
    ensures
        text@ == bytes@,
{
    TmuxText::from_bytes(copy_bytes(bytes))
}

/// Read a flag.
pub fn decode_bool(bytes: &[u8]) -> (value: Option<bool>)
    ensures
        match value {
            Some(value) => decoded(DecoderKind::Bool, bytes@) == Some(ScalarV::Bool(value)),
            None => decoded(DecoderKind::Bool, bytes@) is None,
        },
{
    if bytes.len() != 1 {
        None
    } else if bytes[0] == 48 {
        assert(bytes@ =~= seq![48u8]);
        Some(false)
    } else if bytes[0] == 49 {
        assert(bytes@ =~= seq![49u8]);
        Some(true)
    } else {
        None
    }
}

/// Read an unsigned integer of eight bits.
pub fn decode_u8(bytes: &[u8]) -> (value: Option<u8>)
    ensures
        match value {
            Some(value) => decoded(DecoderKind::U8, bytes@) == Some(ScalarV::U8(value)),
            None => decoded(DecoderKind::U8, bytes@) is None,
        },
{
    match unsigned_value(bytes, u8::MAX as u128) {
        Some(value) => Some(value as u8),
        None => None,
    }
}

/// Read an unsigned integer of thirty-two bits.
pub fn decode_u32(bytes: &[u8]) -> (value: Option<u32>)
    ensures
        match value {
            Some(value) => decoded(DecoderKind::U32, bytes@) == Some(ScalarV::U32(value)),
            None => decoded(DecoderKind::U32, bytes@) is None,
        },
{
    match unsigned_value(bytes, u32::MAX as u128) {
        Some(value) => Some(value as u32),
        None => None,
    }
}

/// Read an unsigned integer of sixty-four bits.
pub fn decode_u64(bytes: &[u8]) -> (value: Option<u64>)
    ensures
        match value {
            Some(value) => decoded(DecoderKind::U64, bytes@) == Some(ScalarV::U64(value)),
            None => decoded(DecoderKind::U64, bytes@) is None,
        },
{
    match unsigned_value(bytes, u64::MAX as u128) {
        Some(value) => Some(value as u64),
        None => None,
    }
}

/// Read a signed integer of thirty-two bits.
pub fn decode_i32(bytes: &[u8]) -> (value: Option<i32>)
    ensures
        match value {
            Some(value) => decoded(DecoderKind::I32, bytes@) == Some(ScalarV::I32(value)),
            None => decoded(DecoderKind::I32, bytes@) is None,
        },
{
    match signed_value(bytes, i32::MIN as i128, i32::MAX as i128) {
        Some(value) => Some(value as i32),
        None => None,
    }
}

/// Read a time in seconds.
pub fn decode_timestamp(bytes: &[u8]) -> (value: Option<i64>)
    ensures
        match value {
            Some(value) => decoded(DecoderKind::Timestamp, bytes@) == Some(
                ScalarV::Timestamp(value),
            ),
            None => decoded(DecoderKind::Timestamp, bytes@) is None,
        },
{
    match signed_value(bytes, i64::MIN as i128, i64::MAX as i128) {
        Some(value) => Some(value as i64),
        None => None,
    }
}

/// Read a percentage of progress.
pub fn decode_pane_progress(bytes: &[u8]) -> (value: Option<u8>)
    ensures
        match value {
            Some(value) => decoded(DecoderKind::PaneProgress, bytes@) == Some(
                ScalarV::PaneProgress(value),
            ),
            None => decoded(DecoderKind::PaneProgress, bytes@) is None,
        },
{
    match unsigned_value(bytes, 100) {
        Some(value) => Some(value as u8),
        None => None,
    }
}

/// Compare bytes with an ASCII word.
fn is_word(bytes: &[u8], word: &str) -> (same: bool)
    requires
        vstd::utf8::is_ascii_chars(word@),
    ensures
        same == (bytes@ == text::ascii(word@)),
{
    proof {
        text::lemma_ascii_encoding(word@);
    }
    bytes_eq(bytes, word.as_bytes())
}

/// Read the state of a progress bar.
pub fn decode_pane_progress_state(bytes: &[u8]) -> (state: Option<PaneProgressState>)
    ensures
        state == progress_denoted(bytes@),
{
    proof {
        reveal_strlit("hidden");
        reveal_strlit("normal");
        reveal_strlit("error");
        reveal_strlit("indeterminate");
        reveal_strlit("paused");
    }
    if is_word(bytes, "hidden") {
        Some(PaneProgressState::Hidden)
    } else if is_word(bytes, "normal") {
        Some(PaneProgressState::Normal)
    } else if is_word(bytes, "error") {
        Some(PaneProgressState::Error)
    } else if is_word(bytes, "indeterminate") {
        Some(PaneProgressState::Indeterminate)
    } else if is_word(bytes, "paused") {
        Some(PaneProgressState::Paused)
    } else {
        None
    }
}

/// Read a value by a decoder.
pub fn decode_scalar(kind: DecoderKind, bytes: &[u8]) -> (value: Option<FieldScalar>)
    ensures
        match value {
            Some(value) => decoded(kind, bytes@) == Some(value@),
            None => decoded(kind, bytes@) is None,
        },
{
    match kind {
        DecoderKind::Ascii => match decode_ascii(bytes) {
            Some(text) => Some(FieldScalar::Ascii(text)),
            None => None,
        },
        DecoderKind::Text => Some(FieldScalar::Text(decode_text(bytes))),
        DecoderKind::Bool => match decode_bool(bytes) {
            Some(value) => Some(FieldScalar::Bool(value)),
            None => None,
        },
        DecoderKind::U8 => match decode_u8(bytes) {
            Some(value) => Some(FieldScalar::U8(value)),
            None => None,
        },
        DecoderKind::U32 => match decode_u32(bytes) {
            Some(value) => Some(FieldScalar::U32(value)),
            None => None,
        },
        DecoderKind::U64 => match decode_u64(bytes) {
            Some(value) => Some(FieldScalar::U64(value)),
            None => None,
        },
        DecoderKind::I32 => match decode_i32(bytes) {
            Some(value) => Some(FieldScalar::I32(value)),
            None => None,
        },
        DecoderKind::Timestamp => match decode_timestamp(bytes) {
            Some(value) => Some(FieldScalar::Timestamp(value)),
            None => None,
        },
        DecoderKind::SessionId => match SessionId::parse(bytes) {
            Some(id) => Some(FieldScalar::SessionId(id)),
            None => None,
        },
        DecoderKind::WindowId => match WindowId::parse(bytes) {
            Some(id) => Some(FieldScalar::WindowId(id)),
            None => None,
        },
        DecoderKind::PaneId => match PaneId::parse(bytes) {
            Some(id) => Some(FieldScalar::PaneId(id)),
            None => None,
        },
        DecoderKind::PaneProgress => match decode_pane_progress(bytes) {
            Some(value) => Some(FieldScalar::PaneProgress(value)),
            None => None,
        },
        DecoderKind::PaneProgressState => match decode_pane_progress_state(bytes) {
            Some(state) => Some(FieldScalar::PaneProgressState(state)),
            None => None,
        },
    }
}

impl FieldScalar {
    /// Copy a value.
    pub fn copy(&self) -> (copy: FieldScalar)
        ensures
            copy@ == self@,
    {
        match self {
            FieldScalar::Ascii(text) => FieldScalar::Ascii(text.copy()),
            FieldScalar::Text(text) => FieldScalar::Text(text.copy()),
            FieldScalar::Bool(value) => FieldScalar::Bool(*value),
            FieldScalar::U8(value) => FieldScalar::U8(*value),
            FieldScalar::U32(value) => FieldScalar::U32(*value),
            FieldScalar::U64(value) => FieldScalar::U64(*value),
            FieldScalar::I32(value) => FieldScalar::I32(*value),
            FieldScalar::Timestamp(value) => FieldScalar::Timestamp(*value),
            FieldScalar::SessionId(id) => FieldScalar::SessionId(*id),
            FieldScalar::WindowId(id) => FieldScalar::WindowId(*id),
            FieldScalar::PaneId(id) => FieldScalar::PaneId(*id),
            FieldScalar::PaneProgress(value) => FieldScalar::PaneProgress(*value),
            FieldScalar::PaneProgressState(state) => FieldScalar::PaneProgressState(*state),
        }
    }

    /// Report whether two values are one value.
    pub fn same(&self, other: &FieldScalar) -> (same: bool)
        ensures
            same == (self@ == other@),
    {
        match (self, other) {
            (FieldScalar::Ascii(left), FieldScalar::Ascii(right)) => *left == *right,
            (FieldScalar::Text(left), FieldScalar::Text(right)) => *left == *right,
            (FieldScalar::Bool(left), FieldScalar::Bool(right)) => *left == *right,
            (FieldScalar::U8(left), FieldScalar::U8(right)) => *left == *right,
            (FieldScalar::U32(left), FieldScalar::U32(right)) => *left == *right,
            (FieldScalar::U64(left), FieldScalar::U64(right)) => *left == *right,
            (FieldScalar::I32(left), FieldScalar::I32(right)) => *left == *right,
            (FieldScalar::Timestamp(left), FieldScalar::Timestamp(right)) => *left == *right,
            (FieldScalar::SessionId(left), FieldScalar::SessionId(right)) => left.same(right),
            (FieldScalar::WindowId(left), FieldScalar::WindowId(right)) => left.same(right),
            (FieldScalar::PaneId(left), FieldScalar::PaneId(right)) => left.same(right),
            (FieldScalar::PaneProgress(left), FieldScalar::PaneProgress(right)) => *left == *right,
            (FieldScalar::PaneProgressState(left), FieldScalar::PaneProgressState(right)) => *left
                == *right,
            _ => false,
        }
    }
}

/// A field's evidence and value in contracts.
pub open spec fn value_view(value: Availability<FieldScalar>) -> Availability<ScalarV> {
    match value {
        Availability::Unsupported => Availability::Unsupported,
        Availability::Unproven => Availability::Unproven,
        Availability::Absent => Availability::Absent,
        Availability::Available(value) => Availability::Available(value@),
    }
}

/// The views of a list of values.
pub open spec fn value_views(values: Seq<Availability<FieldScalar>>) -> Seq<Availability<ScalarV>> {
    values.map_values(|value: Availability<FieldScalar>| value_view(value))
}

/// An integer that a field shows in canonical notation is decoded as that
/// integer, by every decoder whose range holds it.
pub proof fn law_integer_fields_round_trip(number: int)
    ensures
        ({
            let bytes = text::ascii(decimal::signed_decimal(number));
            &&& 0 <= number <= u8::MAX ==> decoded(DecoderKind::U8, bytes) == Some(
                ScalarV::U8(number as u8),
            )
            &&& 0 <= number <= u32::MAX ==> decoded(DecoderKind::U32, bytes) == Some(
                ScalarV::U32(number as u32),
            )
            &&& 0 <= number <= u64::MAX ==> decoded(DecoderKind::U64, bytes) == Some(
                ScalarV::U64(number as u64),
            )
            &&& i32::MIN <= number <= i32::MAX ==> decoded(DecoderKind::I32, bytes) == Some(
                ScalarV::I32(number as i32),
            )
            &&& i64::MIN <= number <= i64::MAX ==> decoded(DecoderKind::Timestamp, bytes) == Some(
                ScalarV::Timestamp(number as i64),
            )
            &&& 0 <= number <= 100 ==> decoded(DecoderKind::PaneProgress, bytes) == Some(
                ScalarV::PaneProgress(number as u8),
            )
        }),
{
    let bytes = text::ascii(decimal::signed_decimal(number));
    lemma_integer_denoted(bytes, number, 0, u8::MAX as int);
    lemma_integer_denoted(bytes, number, 0, u32::MAX as int);
    lemma_integer_denoted(bytes, number, 0, u64::MAX as int);
    lemma_integer_denoted(bytes, number, i32::MIN as int, i32::MAX as int);
    lemma_integer_denoted(bytes, number, i64::MIN as int, i64::MAX as int);
    lemma_integer_denoted(bytes, number, 0, 100);
}

/// A progress state's name, as expressions spell it, is what tmux prints for
/// the state.
pub proof fn law_progress_names_are_what_tmux_prints(state: PaneProgressState)
    ensures
        progress_denoted(text::ascii(state.name())) == Some(state),
{
    reveal_strlit("hidden");
    reveal_strlit("normal");
    reveal_strlit("error");
    reveal_strlit("indeterminate");
    reveal_strlit("paused");
    let spelled = text::ascii(state.name());
    assert(spelled.len() == state.name().len());
    assert(text::ascii("hidden"@)[0] == 104);
    assert(text::ascii("normal"@)[0] == 110);
    assert(text::ascii("error"@)[0] == 101);
    assert(text::ascii("indeterminate"@)[0] == 105);
    assert(text::ascii("paused"@)[0] == 112);
}

/// A field of numbers is decoded to a number exactly where it holds the
/// notation of the number and the number fits its width. A progress is at most
/// a hundred.
pub proof fn law_numbers_are_decoded_from_their_notation(
    bytes: Seq<u8>,
    small: u8,
    middle: u32,
    large: u64,
    signed: i32,
    time: i64,
)
    ensures
        decoded(DecoderKind::U8, bytes) == Some(ScalarV::U8(small)) <==> bytes == text::ascii(
            decimal::signed_decimal(small as int),
        ),
        decoded(DecoderKind::U32, bytes) == Some(ScalarV::U32(middle)) <==> bytes == text::ascii(
            decimal::signed_decimal(middle as int),
        ),
        decoded(DecoderKind::U64, bytes) == Some(ScalarV::U64(large)) <==> bytes == text::ascii(
            decimal::signed_decimal(large as int),
        ),
        decoded(DecoderKind::I32, bytes) == Some(ScalarV::I32(signed)) <==> bytes == text::ascii(
            decimal::signed_decimal(signed as int),
        ),
        decoded(DecoderKind::Timestamp, bytes) == Some(ScalarV::Timestamp(time)) <==> bytes
            == text::ascii(decimal::signed_decimal(time as int)),
        decoded(DecoderKind::PaneProgress, bytes) == Some(ScalarV::PaneProgress(small)) <==> bytes
            == text::ascii(decimal::signed_decimal(small as int)) && small <= 100,
{
    if bytes == text::ascii(decimal::signed_decimal(small as int)) {
        law_integer_fields_round_trip(small as int);
    }
    if bytes == text::ascii(decimal::signed_decimal(middle as int)) {
        law_integer_fields_round_trip(middle as int);
    }
    if bytes == text::ascii(decimal::signed_decimal(large as int)) {
        law_integer_fields_round_trip(large as int);
    }
    if bytes == text::ascii(decimal::signed_decimal(signed as int)) {
        law_integer_fields_round_trip(signed as int);
    }
    if bytes == text::ascii(decimal::signed_decimal(time as int)) {
        law_integer_fields_round_trip(time as int);
    }
}

/// A field of text is its bytes, a field of ASCII is its bytes where each is
/// below 128, a flag is `0` or `1`, and an identity is its mark and its number.
/// What is decoded is of the kind that was asked for.
pub proof fn law_texts_flags_and_identities_are_decoded(
    kind: DecoderKind,
    bytes: Seq<u8>,
    number: u32,
)
    ensures
        decoded(kind, bytes) matches Some(scalar) ==> scalar.kind() == kind,
        decoded(DecoderKind::Text, bytes) == Some(ScalarV::Text(bytes)),
        (forall|i: int| 0 <= i < bytes.len() ==> #[trigger] bytes[i] < 128) ==> decoded(
            DecoderKind::Ascii,
            bytes,
        ) == Some(ScalarV::Ascii(bytes)),
        (exists|i: int| 0 <= i < bytes.len() && #[trigger] bytes[i] >= 128) ==> decoded(
            DecoderKind::Ascii,
            bytes,
        ) is None,
        decoded(DecoderKind::Bool, bytes) == Some(ScalarV::Bool(false)) <==> bytes == seq![48u8],
        decoded(DecoderKind::Bool, bytes) == Some(ScalarV::Bool(true)) <==> bytes == seq![49u8],
        decoded(DecoderKind::SessionId, bytes) == Some(ScalarV::SessionId(number))
            <==> target::id_number('$' as u8, bytes) == Some(number),
        decoded(DecoderKind::WindowId, bytes) == Some(ScalarV::WindowId(number))
            <==> target::id_number('@' as u8, bytes) == Some(number),
        decoded(DecoderKind::PaneId, bytes) == Some(ScalarV::PaneId(number)) <==> target::id_number(
            '%' as u8,
            bytes,
        ) == Some(number),
{
    assert(seq![48u8][0] != seq![49u8][0]);
}

/// A field holds a progress state exactly where it holds the state's name.
pub proof fn law_progress_states_are_decoded_from_their_names(
    bytes: Seq<u8>,
    state: PaneProgressState,
)
    ensures
        decoded(DecoderKind::PaneProgressState, bytes) == Some(ScalarV::PaneProgressState(state))
            <==> bytes == text::ascii(state.name()),
        state is Hidden ==> state.name() == "hidden"@,
        state is Normal ==> state.name() == "normal"@,
        state is Error ==> state.name() == "error"@,
        state is Indeterminate ==> state.name() == "indeterminate"@,
        state is Paused ==> state.name() == "paused"@,
{
    if bytes == text::ascii(state.name()) {
        law_progress_names_are_what_tmux_prints(state);
    }
}

} // verus!
