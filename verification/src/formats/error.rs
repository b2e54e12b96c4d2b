//! Why a listing could not be read.

use vstd::prelude::*;

use crate::formats::catalog::DecoderKind;

verus! {

/// The reason a listing could not be read.
#[derive(Clone, Copy, Debug, PartialEq, Eq, Structural)]
pub enum FormatCodecErrorKind {
    /// A NUL byte stands inside a field.
    EmbeddedNul,
    /// A backslash quotes a byte that tmux does not quote.
    InvalidEscape,
    /// The output ends behind a backslash.
    DanglingEscape,
    /// The output ends inside a field.
    MissingFieldTerminator,
    /// The output ends behind the last field of a row.
    MissingRowLf,
    /// Something other than a newline follows the last field of a row.
    UnexpectedRowTerminator,
    /// A field that has to be ASCII is not.
    NonAscii,
    /// A field does not decode.
    InvalidValue,
    /// A field that is never empty is empty.
    RequiredFieldEmpty,
    /// A row and the plan that it is read by do not belong together.
    PlanRowMismatch,
    /// A listing does not report a field that was asked for.
    OutOfScope,
    /// A plan asks for no field.
    EmptyPlan,
}

/// The step that failed.
#[derive(Clone, Copy, Debug, PartialEq, Eq, Structural)]
pub enum FormatCodecPhase {
    Plan,
    Field,
    Row,
    Decode,
}

/// A listing command.
#[derive(Clone, Copy, Debug, PartialEq, Eq, Structural)]
pub enum ListProfile {
    Sessions,
    Windows,
    Panes,
    Clients,
}

/// A listing that could not be read. It holds where and why, and no byte of the
/// listing.
#[derive(Clone, Copy, Debug)]
pub struct FormatCodecError {
    kind: FormatCodecErrorKind,
    phase: FormatCodecPhase,
    row: Option<usize>,
    field: Option<usize>,
    field_name: Option<&'static str>,
    expected: Option<DecoderKind>,
    offset: Option<usize>,
    profile: Option<ListProfile>,
}

/// An error in contracts.
#[verifier::ext_equal]
pub ghost struct ErrorV {
    pub kind: FormatCodecErrorKind,
    pub phase: FormatCodecPhase,
    pub row: Option<int>,
    pub field: Option<int>,
    pub field_name: Option<Seq<char>>,
    pub expected: Option<DecoderKind>,
    pub offset: Option<int>,
    pub profile: Option<ListProfile>,
}

/// An optional number in contracts.
pub open spec fn number(value: Option<usize>) -> Option<int> {
    match value {
        Some(value) => Some(value as int),
        None => None,
    }
}

/// An optional name in contracts.
pub open spec fn name(value: Option<&'static str>) -> Option<Seq<char>> {
    match value {
        Some(value) => Some(value@),
        None => None,
    }
}

/// A row that does not belong to its plan.
pub open spec fn mismatch(
    row: int,
    field: Option<int>,
    field_name: Option<Seq<char>>,
    offset: Option<int>,
) -> ErrorV {
    ErrorV {
        kind: FormatCodecErrorKind::PlanRowMismatch,
        phase: FormatCodecPhase::Decode,
        row: Some(row),
        field,
        field_name,
        expected: None,
        offset,
        profile: None,
    }
}

/// A plan that was made for another reading.
pub open spec fn wrong_purpose(profile: ListProfile, row: int) -> ErrorV {
    ErrorV {
        kind: FormatCodecErrorKind::PlanRowMismatch,
        phase: FormatCodecPhase::Decode,
        row: Some(row),
        field: None,
        field_name: None,
        expected: None,
        offset: None,
        profile: Some(profile),
    }
}

impl FormatCodecError {
    /// The error in contracts.
    pub closed spec fn view(&self) -> ErrorV {
        ErrorV {
            kind: self.kind,
            phase: self.phase,
            row: number(self.row),
            field: number(self.field),
            field_name: name(self.field_name),
            expected: self.expected,
            offset: number(self.offset),
            profile: self.profile,
        }
    }

    /// Report a row that does not belong to its plan.
    pub fn row_mismatch(
        row: usize,
        field: Option<usize>,
        field_name: Option<&'static str>,
        offset: Option<usize>,
    ) -> (error: FormatCodecError)
        ensures
            error@ == mismatch(row as int, number(field), name(field_name), number(offset)),
    {
        FormatCodecError {
            kind: FormatCodecErrorKind::PlanRowMismatch,
            phase: FormatCodecPhase::Decode,
            row: Some(row),
            field,
            field_name,
            expected: None,
            offset,
            profile: None,
        }
    }

    /// Report a plan that was made for another reading.
    pub fn purpose_mismatch(profile: ListProfile, row: usize) -> (error: FormatCodecError)
        ensures
            error@ == wrong_purpose(profile, row as int),
    {
        FormatCodecError {
            kind: FormatCodecErrorKind::PlanRowMismatch,
            phase: FormatCodecPhase::Decode,
            row: Some(row),
            field: None,
            field_name: None,
            expected: None,
            offset: None,
            profile: Some(profile),
        }
    }

    /// Report a field, with the decoder that it was read by.
    pub fn typed(
        kind: FormatCodecErrorKind,
        row: usize,
        field: usize,
        field_name: &'static str,
        expected: DecoderKind,
        offset: usize,
    ) -> (error: FormatCodecError)
        ensures
            error@ == (ErrorV {
                kind,
                phase: FormatCodecPhase::Decode,
                row: Some(row as int),
                field: Some(field as int),
                field_name: Some(field_name@),
                expected: Some(expected),
                offset: Some(offset as int),
                profile: None,
            }),
    {
        FormatCodecError {
            kind,
            phase: FormatCodecPhase::Decode,
            row: Some(row),
            field: Some(field),
            field_name: Some(field_name),
            expected: Some(expected),
            offset: Some(offset),
            profile: None,
        }
    }

    /// Report a field of a listing that has no plan.
    pub fn uncatalogued(
        kind: FormatCodecErrorKind,
        phase: FormatCodecPhase,
        row: usize,
        field: Option<usize>,
        field_name: Option<&'static str>,
        offset: Option<usize>,
    ) -> (error: FormatCodecError)
        ensures
            error@ == (ErrorV {
                kind,
                phase,
                row: Some(row as int),
                field: number(field),
                field_name: name(field_name),
                expected: None,
                offset: number(offset),
                profile: None,
            }),
    {
        FormatCodecError {
            kind,
            phase,
            row: Some(row),
            field,
            field_name,
            expected: None,
            offset,
            profile: None,
        }
    }

    /// Report a field that a plan cannot ask for.
    pub fn unplanned(
        kind: FormatCodecErrorKind,
        field: Option<usize>,
        field_name: Option<&'static str>,
        profile: Option<ListProfile>,
    ) -> (error: FormatCodecError)
        ensures
            error@ == (ErrorV {
                kind,
                phase: FormatCodecPhase::Plan,
                row: None,
                field: number(field),
                field_name: name(field_name),
                expected: None,
                offset: None,
                profile,
            }),
    {
        FormatCodecError {
            kind,
            phase: FormatCodecPhase::Plan,
            row: None,
            field,
            field_name,
            expected: None,
            offset: None,
            profile,
        }
    }

    /// The reason.
    pub fn kind(&self) -> (kind: FormatCodecErrorKind)
        ensures
            kind == self@.kind,
    {
        self.kind
    }

    /// The step that failed.
    pub fn phase(&self) -> (phase: FormatCodecPhase)
        ensures
            phase == self@.phase,
    {
        self.phase
    }

    /// The row, counted from the start of the listing.
    pub fn row(&self) -> (row: Option<usize>)
        ensures
            number(row) == self@.row,
    {
        self.row
    }

    /// The field, counted from the start of its row.
    pub fn field(&self) -> (field: Option<usize>)
        ensures
            number(field) == self@.field,
    {
        self.field
    }

    /// The field's name.
    pub fn field_name(&self) -> (field_name: Option<&'static str>)
        ensures
            name(field_name) == self@.field_name,
    {
        self.field_name
    }

    /// The decoder that refused the field.
    pub fn expected(&self) -> (expected: Option<DecoderKind>)
        ensures
            expected == self@.expected,
    {
        self.expected
    }

    /// Where in the listing the field starts, or the failure was found.
    pub fn offset(&self) -> (offset: Option<usize>)
        ensures
            number(offset) == self@.offset,
    {
        self.offset
    }

    /// The listing that a plan was made for.
    pub fn profile(&self) -> (profile: Option<ListProfile>)
        ensures
            profile == self@.profile,
    {
        self.profile
    }
}

} // verus!
