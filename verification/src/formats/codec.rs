//! The framing of listing rows.
//!
//! A row is a sequence of fields and a newline. Every field ends in a
//! terminator byte, and inside a field tmux quotes special bytes with a
//! backslash, so that a terminator, a newline or a byte outside UTF-8 can be
//! part of a value.

use vstd::prelude::*;

use crate::formats::error::FormatCodecErrorKind;
use crate::formats::error::FormatCodecPhase;

verus! {

/// Whether tmux quotes a byte inside a field.
pub open spec fn quotable(byte: u8) -> bool {
    byte == 92 || byte == 124 || byte == 38 || byte == 59 || byte == 60 || byte == 62 || byte == 40
        || byte == 41 || byte == 36 || byte == 96 || byte == 34 || byte == 39 || byte == 42 || byte
        == 63 || byte == 91 || byte == 35 || byte == 32 || byte == 61 || byte == 37
}

/// Report whether tmux quotes a byte inside a field.
fn is_quotable(byte: u8) -> (found: bool)
    ensures
        found == quotable(byte),
{
    matches!(
        byte,
        92 | 124 | 38 | 59 | 60 | 62 | 40 | 41 | 36 | 96 | 34 | 39 | 42 | 63 | 91 | 35 | 32 | 61 | 37
    )
}

/// Why bytes do not frame: the reason, and where it was found.
#[verifier::ext_equal]
pub ghost struct FailureV {
    pub kind: FormatCodecErrorKind,
    pub phase: FormatCodecPhase,
    pub row: int,
    pub field: Option<int>,
    pub offset: int,
}

/// A field and the offset that it starts at.
#[verifier::ext_equal]
pub ghost struct RawFieldV {
    pub start: int,
    pub bytes: Seq<u8>,
}

/// The value of the field that starts at an offset, and the offset behind its
/// terminator; or the reason why there is none, and its offset.
pub open spec fn read_field(bytes: Seq<u8>, at: int, terminator: u8) -> Result<
    (Seq<u8>, int),
    (FormatCodecErrorKind, int),
>
    decreases bytes.len() - at,
{
    if at < 0 || at >= bytes.len() {
        Err((FormatCodecErrorKind::MissingFieldTerminator, bytes.len() as int))
    } else if bytes[at] == terminator {
        Ok((Seq::empty(), at + 1))
    } else if bytes[at] == 0 {
        Err((FormatCodecErrorKind::EmbeddedNul, at))
    } else if bytes[at] != 92 {
        with_byte(bytes[at], read_field(bytes, at + 1, terminator))
    } else if at + 1 >= bytes.len() {
        Err((FormatCodecErrorKind::DanglingEscape, at))
    } else if !quotable(bytes[at + 1]) {
        Err((FormatCodecErrorKind::InvalidEscape, at))
    } else {
        with_byte(bytes[at + 1], read_field(bytes, at + 2, terminator))
    }
}

/// A reading with one more byte in front of the value.
pub open spec fn with_byte(
    byte: u8,
    reading: Result<(Seq<u8>, int), (FormatCodecErrorKind, int)>,
) -> Result<(Seq<u8>, int), (FormatCodecErrorKind, int)> {
    match reading {
        Ok((value, next)) => Ok((seq![byte] + value, next)),
        Err(failure) => Err(failure),
    }
}

/// A reading with more bytes in front of the value.
pub open spec fn with_bytes(
    bytes: Seq<u8>,
    reading: Result<(Seq<u8>, int), (FormatCodecErrorKind, int)>,
) -> Result<(Seq<u8>, int), (FormatCodecErrorKind, int)> {
    match reading {
        Ok((value, next)) => Ok((bytes + value, next)),
        Err(failure) => Err(failure),
    }
}

/// The fields of the row that continues at an offset with a field of the given
/// number, and the offset behind its newline.
pub open spec fn read_row(
    bytes: Seq<u8>,
    at: int,
    terminator: u8,
    row: int,
    field: int,
    count: int,
) -> Result<(Seq<RawFieldV>, int), FailureV>
    decreases count - field,
{
    if field >= count {
        if at >= bytes.len() {
            Err(
                FailureV {
                    kind: FormatCodecErrorKind::MissingRowLf,
                    phase: FormatCodecPhase::Row,
                    row,
                    field: None,
                    offset: bytes.len() as int,
                },
            )
        } else if bytes[at] != 10 {
            Err(
                FailureV {
                    kind: FormatCodecErrorKind::UnexpectedRowTerminator,
                    phase: FormatCodecPhase::Row,
                    row,
                    field: None,
                    offset: at,
                },
            )
        } else {
            Ok((Seq::empty(), at + 1))
        }
    } else {
        match read_field(bytes, at, terminator) {
            Err((kind, offset)) => Err(
                FailureV {
                    kind,
                    phase: FormatCodecPhase::Field,
                    row,
                    field: Some(field),
                    offset,
                },
            ),
            Ok((value, next)) => match read_row(bytes, next, terminator, row, field + 1, count) {
                Err(failure) => Err(failure),
                Ok((fields, end)) => Ok(
                    (seq![RawFieldV { start: at, bytes: value }] + fields, end),
                ),
            },
        }
    }
}

/// A field ends behind where it starts, and inside the bytes.
pub proof fn lemma_field_advances(bytes: Seq<u8>, at: int, terminator: u8)
    requires
        0 <= at,
        read_field(bytes, at, terminator) is Ok,
    ensures
        at < read_field(bytes, at, terminator)->Ok_0.1 <= bytes.len(),
    decreases bytes.len() - at,
{
    if at < bytes.len() && bytes[at] != terminator && bytes[at] != 0 {
        if bytes[at] != 92 {
            lemma_field_advances(bytes, at + 1, terminator);
        } else {
            lemma_field_advances(bytes, at + 2, terminator);
        }
    }
}

/// A row ends behind where it starts, and inside the bytes.
pub proof fn lemma_row_advances(
    bytes: Seq<u8>,
    at: int,
    terminator: u8,
    row: int,
    field: int,
    count: int,
)
    requires
        0 <= at,
        read_row(bytes, at, terminator, row, field, count) is Ok,
    ensures
        at < read_row(bytes, at, terminator, row, field, count)->Ok_0.1 <= bytes.len(),
        field <= count ==> read_row(bytes, at, terminator, row, field, count)->Ok_0.0.len() == count
            - field,
    decreases count - field,
{
    if field < count {
        lemma_field_advances(bytes, at, terminator);
        lemma_row_advances(
            bytes,
            read_field(bytes, at, terminator)->Ok_0.1,
            terminator,
            row,
            field + 1,
            count,
        );
    }
}

/// The rows that continue at an offset, up to the end.
pub open spec fn read_rows(
    bytes: Seq<u8>,
    at: int,
    terminator: u8,
    row: int,
    count: int,
) -> Result<Seq<Seq<RawFieldV>>, FailureV>
    decreases bytes.len() - at,
{
    if at < 0 || at >= bytes.len() {
        Ok(Seq::empty())
    } else {
        match read_row(bytes, at, terminator, row, 0, count) {
            Err(failure) => Err(failure),
            Ok((fields, next)) => {
                proof {
                    lemma_row_advances(bytes, at, terminator, row, 0, count);
                }
                match read_rows(bytes, next, terminator, row + 1, count) {
                    Err(failure) => Err(failure),
                    Ok(rows) => Ok(seq![fields] + rows),
                }
            },
        }
    }
}

/// A field and the offset that it starts at.
pub struct RawField {
    pub start: usize,
    pub bytes: Vec<u8>,
}

impl RawField {
    /// The field in contracts.
    pub open spec fn view(&self) -> RawFieldV {
        RawFieldV { start: self.start as int, bytes: self.bytes@ }
    }
}

/// The views of a list of fields.
pub open spec fn raw_views(fields: Seq<RawField>) -> Seq<RawFieldV> {
    fields.map_values(|field: RawField| field@)
}

/// The views of a list of rows.
pub open spec fn row_views(rows: Seq<Vec<RawField>>) -> Seq<Seq<RawFieldV>> {
    rows.map_values(|row: Vec<RawField>| raw_views(row@))
}

/// Why bytes do not frame, and where that was found.
#[derive(Clone, Copy, Debug, PartialEq, Eq, Structural)]
pub struct FramingFailure {
    pub kind: FormatCodecErrorKind,
    pub phase: FormatCodecPhase,
    pub row: usize,
    pub field: Option<usize>,
    pub offset: usize,
}

impl FramingFailure {
    /// The failure in contracts.
    pub open spec fn view(&self) -> FailureV {
        FailureV {
            kind: self.kind,
            phase: self.phase,
            row: self.row as int,
            field: match self.field {
                Some(field) => Some(field as int),
                None => None,
            },
            offset: self.offset as int,
        }
    }
}

/// Read the field that starts at an offset.
fn split_field(bytes: &[u8], at: usize, terminator: u8) -> (reading: Result<
    (Vec<u8>, usize),
    (FormatCodecErrorKind, usize),
>)
    requires
        at <= bytes@.len(),
    ensures
        match reading {
            Ok((value, next)) => read_field(bytes@, at as int, terminator) == Ok::<
                (Seq<u8>, int),
                (FormatCodecErrorKind, int),
            >((value@, next as int)) && at < next <= bytes@.len(),
            Err((kind, offset)) => read_field(bytes@, at as int, terminator) == Err::<
                (Seq<u8>, int),
                (FormatCodecErrorKind, int),
            >((kind, offset as int)),
        },
{
    let ghost expected = read_field(bytes@, at as int, terminator);
    let mut value: Vec<u8> = Vec::new();
    let mut position: usize = at;
    assert(expected == with_bytes(value@, read_field(bytes@, position as int, terminator))) by {
        if let Ok((read, _)) = expected {
            assert(Seq::<u8>::empty() + read =~= read);
        }
    }
    while position < bytes.len()
        invariant
            at <= position <= bytes@.len(),
            expected == read_field(bytes@, at as int, terminator),
            expected == with_bytes(value@, read_field(bytes@, position as int, terminator)),
        decreases bytes@.len() - position,
    {
        let byte = bytes[position];
        let ghost before = value@;
        if byte == terminator {
            assert(before + Seq::<u8>::empty() =~= before);
            return Ok((value, position + 1));
        }
        if byte == 0 {
            return Err((FormatCodecErrorKind::EmbeddedNul, position));
        }
        if byte != 92 {
            value.push(byte);
            proof {
                if let Ok((read, _)) = read_field(bytes@, position + 1, terminator) {
                    assert(before + (seq![byte] + read) =~= value@ + read);
                }
            }
            position += 1;
        } else {
            if position + 1 >= bytes.len() {
                return Err((FormatCodecErrorKind::DanglingEscape, position));
            }
            let quoted = bytes[position + 1];
            if !is_quotable(quoted) {
                return Err((FormatCodecErrorKind::InvalidEscape, position));
            }
            value.push(quoted);
            proof {
                if let Ok((read, _)) = read_field(bytes@, position + 2, terminator) {
                    assert(before + (seq![quoted] + read) =~= value@ + read);
                }
            }
            position += 2;
        }
    }
    Err((FormatCodecErrorKind::MissingFieldTerminator, bytes.len()))
}

/// Read the row that starts at an offset.
fn split_row(bytes: &[u8], at: usize, terminator: u8, row: usize, count: usize) -> (reading: Result<
    (Vec<RawField>, usize),
    FramingFailure,
>)
    requires
        at <= bytes@.len(),
    ensures
        match reading {
            Ok((fields, next)) => read_row(
                bytes@,
                at as int,
                terminator,
                row as int,
                0,
                count as int,
            ) == Ok::<(Seq<RawFieldV>, int), FailureV>((raw_views(fields@), next as int)) && at
                < next <= bytes@.len() && fields@.len() == count,
            Err(failure) => read_row(bytes@, at as int, terminator, row as int, 0, count as int)
                == Err::<(Seq<RawFieldV>, int), FailureV>(failure@),
        },
{
    let ghost expected = read_row(bytes@, at as int, terminator, row as int, 0, count as int);
    let mut fields: Vec<RawField> = Vec::new();
    let mut position: usize = at;
    let mut field: usize = 0;
    proof {
        if let Ok((read, _)) = expected {
            assert(raw_views(fields@) + read =~= read);
        }
    }
    while field < count
        invariant
            field <= count,
            fields@.len() == field,
            at <= position <= bytes@.len(),
            expected == read_row(bytes@, at as int, terminator, row as int, 0, count as int),
            match read_row(
                bytes@,
                position as int,
                terminator,
                row as int,
                field as int,
                count as int,
            ) {
                Ok((rest, next)) => expected == Ok::<(Seq<RawFieldV>, int), FailureV>(
                    (raw_views(fields@) + rest, next),
                ),
                Err(failure) => expected == Err::<(Seq<RawFieldV>, int), FailureV>(failure),
            },
        decreases count - field,
    {
        let start = position;
        let ghost before = raw_views(fields@);
        match split_field(bytes, position, terminator) {
            Ok((value, next)) => {
                let ghost read = RawFieldV { start: start as int, bytes: value@ };
                fields.push(RawField { start, bytes: value });
                position = next;
                proof {
                    assert(raw_views(fields@) =~= before.push(read));
                    if let Ok((rest, _)) = read_row(
                        bytes@,
                        next as int,
                        terminator,
                        row as int,
                        field + 1,
                        count as int,
                    ) {
                        assert(before + (seq![read] + rest) =~= raw_views(fields@) + rest);
                    }
                }
            },
            Err((kind, offset)) => return Err(
                FramingFailure {
                    kind,
                    phase: FormatCodecPhase::Field,
                    row,
                    field: Some(field),
                    offset,
                },
            ),
        }
        field += 1;
    }
    if position >= bytes.len() {
        return Err(
            FramingFailure {
                kind: FormatCodecErrorKind::MissingRowLf,
                phase: FormatCodecPhase::Row,
                row,
                field: None,
                offset: bytes.len(),
            },
        );
    }
    if bytes[position] != 10 {
        return Err(
            FramingFailure {
                kind: FormatCodecErrorKind::UnexpectedRowTerminator,
                phase: FormatCodecPhase::Row,
                row,
                field: None,
                offset: position,
            },
        );
    }
    assert(raw_views(fields@) + Seq::<RawFieldV>::empty() =~= raw_views(fields@));
    Ok((fields, position + 1))
}

/// Split output into rows of a number of fields.
///
/// # Errors
///
/// The first place where the output does not frame.
pub fn split_rows(bytes: &[u8], terminator: u8, count: usize) -> (reading: Result<
    Vec<Vec<RawField>>,
    FramingFailure,
>)
    ensures
        match reading {
            Ok(rows) => read_rows(bytes@, 0, terminator, 0, count as int) == Ok::<
                Seq<Seq<RawFieldV>>,
                FailureV,
            >(row_views(rows@)) && forall|i: int|
                0 <= i < rows@.len() ==> (#[trigger] rows@[i])@.len() == count,
            Err(failure) => read_rows(bytes@, 0, terminator, 0, count as int) == Err::<
                Seq<Seq<RawFieldV>>,
                FailureV,
            >(failure@),
        },
{
    let ghost expected = read_rows(bytes@, 0, terminator, 0, count as int);
    let mut rows: Vec<Vec<RawField>> = Vec::new();
    let mut position: usize = 0;
    proof {
        if let Ok(read) = expected {
            assert(row_views(rows@) + read =~= read);
        }
    }
    while position < bytes.len()
        invariant
            position <= bytes@.len(),
            rows@.len() <= position,
            expected == read_rows(bytes@, 0, terminator, 0, count as int),
            forall|i: int| 0 <= i < rows@.len() ==> (#[trigger] rows@[i])@.len() == count,
            match read_rows(
                bytes@,
                position as int,
                terminator,
                rows@.len() as int,
                count as int,
            ) {
                Ok(rest) => expected == Ok::<Seq<Seq<RawFieldV>>, FailureV>(
                    row_views(rows@) + rest,
                ),
                Err(failure) => expected == Err::<Seq<Seq<RawFieldV>>, FailureV>(failure),
            },
        decreases bytes@.len() - position,
    {
        let ghost before = row_views(rows@);
        match split_row(bytes, position, terminator, rows.len(), count) {
            Ok((fields, next)) => {
                let ghost read = raw_views(fields@);
                proof {
                    let later = read_rows(
                        bytes@,
                        next as int,
                        terminator,
                        rows@.len() as int + 1,
                        count as int,
                    );
                    assert(read_rows(
                        bytes@,
                        position as int,
                        terminator,
                        rows@.len() as int,
                        count as int,
                    ) == match later {
                        Ok(rest) => Ok::<Seq<Seq<RawFieldV>>, FailureV>(seq![read] + rest),
                        Err(failure) => Err::<Seq<Seq<RawFieldV>>, FailureV>(failure),
                    });
                    if let Ok(rest) = later {
                        assert(before + (seq![read] + rest) =~= before.push(read) + rest);
                    }
                }
                rows.push(fields);
                assert(row_views(rows@) =~= before.push(read));
                position = next;
            },
            Err(failure) => return Err(failure),
        }
    }
    assert(row_views(rows@) + Seq::<Seq<RawFieldV>>::empty() =~= row_views(rows@));
    Ok(rows)
}

/// A value as tmux quotes it inside a field.
pub open spec fn quoted(value: Seq<u8>) -> Seq<u8>
    decreases value.len(),
{
    if value.len() == 0 {
        Seq::empty()
    } else {
        quoted_byte(value[0]) + quoted(value.skip(1))
    }
}

/// A byte as tmux quotes it inside a field.
pub open spec fn quoted_byte(byte: u8) -> Seq<u8> {
    if quotable(byte) {
        seq![92, byte]
    } else {
        seq![byte]
    }
}

/// A field as tmux prints it.
pub open spec fn framed_field(value: Seq<u8>, terminator: u8) -> Seq<u8> {
    quoted(value).push(terminator)
}

/// The fields of a row as tmux prints them.
pub open spec fn framed_fields(values: Seq<Seq<u8>>, terminator: u8) -> Seq<u8>
    decreases values.len(),
{
    if values.len() == 0 {
        Seq::empty()
    } else {
        framed_field(values[0], terminator) + framed_fields(values.skip(1), terminator)
    }
}

/// Rows as tmux prints them.
pub open spec fn framed_rows(rows: Seq<Seq<Seq<u8>>>, terminator: u8) -> Seq<u8>
    decreases rows.len(),
{
    if rows.len() == 0 {
        Seq::empty()
    } else {
        framed_fields(rows[0], terminator).push(10) + framed_rows(rows.skip(1), terminator)
    }
}

/// Whether a value holds no NUL.
pub open spec fn free_of_nul(value: Seq<u8>) -> bool {
    forall|i: int| 0 <= i < value.len() ==> #[trigger] value[i] != 0
}

/// The values of a list of fields.
pub open spec fn values(fields: Seq<RawFieldV>) -> Seq<Seq<u8>> {
    fields.map_values(|field: RawFieldV| field.bytes)
}

/// A field that tmux printed is read as the value that it was printed from.
proof fn lemma_field_round_trips(
    before: Seq<u8>,
    value: Seq<u8>,
    after: Seq<u8>,
    terminator: u8,
)
    requires
        quotable(terminator),
        terminator != 92,
        free_of_nul(value),
    ensures
        read_field(
            before + framed_field(value, terminator) + after,
            before.len() as int,
            terminator,
        ) == Ok::<(Seq<u8>, int), (FormatCodecErrorKind, int)>(
            (value, (before.len() + framed_field(value, terminator).len()) as int),
        ),
    decreases value.len(),
{
    let bytes = before + framed_field(value, terminator) + after;
    let at = before.len() as int;
    if value.len() == 0 {
        assert(bytes[at] == terminator);
        assert(value =~= Seq::empty());
    } else {
        let first = value[0];
        let rest = value.skip(1);
        let longer = before + quoted_byte(first);
        assert(first != 0);
        assert forall|i: int| 0 <= i < rest.len() implies #[trigger] rest[i] != 0 by {
            assert(rest[i] == value[i + 1]);
        }
        lemma_field_round_trips(longer, rest, after, terminator);
        assert(bytes =~= longer + framed_field(rest, terminator) + after);
        assert(seq![first] + rest =~= value);
        if quotable(first) {
            assert(bytes[at] == 92);
            assert(bytes[at + 1] == first);
        } else {
            assert(bytes[at] == first);
        }
    }
}

/// A row that tmux printed is read as the values that it was printed from.
proof fn lemma_row_round_trips(
    before: Seq<u8>,
    row_values: Seq<Seq<u8>>,
    after: Seq<u8>,
    terminator: u8,
    row: int,
    field: int,
)
    requires
        quotable(terminator),
        terminator != 92,
        forall|i: int| 0 <= i < row_values.len() ==> free_of_nul(#[trigger] row_values[i]),
    ensures
        ({
            let bytes = before + framed_fields(row_values, terminator).push(10) + after;
            let reading = read_row(
                bytes,
                before.len() as int,
                terminator,
                row,
                field,
                field + row_values.len(),
            );
            &&& reading is Ok
            &&& values(reading->Ok_0.0) == row_values
            &&& reading->Ok_0.1 == before.len() + framed_fields(row_values, terminator).len() + 1
        }),
    decreases row_values.len(),
{
    let bytes = before + framed_fields(row_values, terminator).push(10) + after;
    let at = before.len() as int;
    let count = field + row_values.len();
    if row_values.len() == 0 {
        assert(bytes[at] == 10);
        assert(values(Seq::<RawFieldV>::empty()) =~= row_values);
    } else {
        let first = row_values[0];
        let rest = row_values.skip(1);
        let framed = framed_field(first, terminator);
        let longer = before + framed;
        let behind = framed_fields(rest, terminator).push(10) + after;
        assert forall|i: int| 0 <= i < rest.len() implies free_of_nul(#[trigger] rest[i]) by {
            assert(rest[i] == row_values[i + 1]);
        }
        lemma_field_round_trips(before, first, behind, terminator);
        assert(bytes =~= before + framed + behind);
        lemma_row_round_trips(longer, rest, after, terminator, row, field + 1);
        assert(bytes =~= longer + framed_fields(rest, terminator).push(10) + after);
        let reading = read_row(bytes, at, terminator, row, field, count);
        let later = read_row(bytes, at + framed.len(), terminator, row, field + 1, count);
        assert(reading->Ok_0.0 == seq![RawFieldV { start: at, bytes: first }] + later->Ok_0.0);
        assert(values(reading->Ok_0.0) =~= seq![first] + values(later->Ok_0.0));
        assert(seq![first] + rest =~= row_values);
    }
}

/// The values of a list of rows.
pub open spec fn table(rows: Seq<Seq<RawFieldV>>) -> Seq<Seq<Seq<u8>>> {
    rows.map_values(|row: Seq<RawFieldV>| values(row))
}

/// Rows behind others that were read.
proof fn lemma_rows_round_trip(
    before: Seq<u8>,
    rows: Seq<Seq<Seq<u8>>>,
    terminator: u8,
    row: int,
    count: int,
)
    requires
        quotable(terminator),
        terminator != 92,
        forall|i: int| 0 <= i < rows.len() ==> (#[trigger] rows[i]).len() == count,
        forall|i: int, j: int|
            0 <= i < rows.len() && 0 <= j < rows[i].len() ==> free_of_nul(#[trigger] rows[i][j]),
    ensures
        ({
            let reading = read_rows(
                before + framed_rows(rows, terminator),
                before.len() as int,
                terminator,
                row,
                count,
            );
            reading is Ok && table(reading->Ok_0) == rows
        }),
    decreases rows.len(),
{
    let bytes = before + framed_rows(rows, terminator);
    let at = before.len() as int;
    if rows.len() == 0 {
        assert(table(Seq::<Seq<RawFieldV>>::empty()) =~= rows);
    } else {
        let first = rows[0];
        let rest = rows.skip(1);
        let framed = framed_fields(first, terminator).push(10);
        let longer = before + framed;
        assert forall|i: int| 0 <= i < rest.len() implies (#[trigger] rest[i]).len() == count by {
            assert(rest[i] == rows[i + 1]);
        }
        assert forall|i: int, j: int| 0 <= i < rest.len() && 0 <= j < rest[i].len() implies
            free_of_nul(#[trigger] rest[i][j]) by {
            assert(rest[i] == rows[i + 1]);
            assert(free_of_nul(rows[i + 1][j]));
        }
        assert forall|j: int| 0 <= j < first.len() implies free_of_nul(#[trigger] first[j]) by {
            assert(free_of_nul(rows[0][j]));
        }
        lemma_row_round_trips(before, first, framed_rows(rest, terminator), terminator, row, 0);
        assert(bytes =~= before + framed + framed_rows(rest, terminator));
        lemma_rows_round_trip(longer, rest, terminator, row + 1, count);
        assert(bytes =~= longer + framed_rows(rest, terminator));
        let reading = read_row(bytes, at, terminator, row, 0, count);
        let later = read_rows(bytes, at + framed.len(), terminator, row + 1, count);
        assert(read_rows(bytes, at, terminator, row, count)->Ok_0 == seq![reading->Ok_0.0]
            + later->Ok_0);
        assert(table(seq![reading->Ok_0.0] + later->Ok_0) =~= seq![first] + table(later->Ok_0));
        assert(seq![first] + rest =~= rows);
    }
}

/// Rows that tmux printed are read as the values that they were printed from,
/// whatever bytes but NUL these hold.
pub proof fn law_framing_round_trips(rows: Seq<Seq<Seq<u8>>>, terminator: u8, count: int)
    requires
        quotable(terminator),
        terminator != 92,
        forall|i: int| 0 <= i < rows.len() ==> (#[trigger] rows[i]).len() == count,
        forall|i: int, j: int|
            0 <= i < rows.len() && 0 <= j < rows[i].len() ==> free_of_nul(#[trigger] rows[i][j]),
    ensures
        read_rows(framed_rows(rows, terminator), 0, terminator, 0, count) is Ok,
        table(read_rows(framed_rows(rows, terminator), 0, terminator, 0, count)->Ok_0) == rows,
{
    lemma_rows_round_trip(Seq::empty(), rows, terminator, 0, count);
    assert(Seq::<u8>::empty() + framed_rows(rows, terminator) =~= framed_rows(rows, terminator));
}

/// The bytes that tmux quotes.
pub proof fn law_quoted_bytes(byte: u8)
    ensures
        quotable(byte) <==> seq![
            '\\',
            '|',
            '&',
            ';',
            '<',
            '>',
            '(',
            ')',
            '$',
            '`',
            '"',
            '\'',
            '*',
            '?',
            '[',
            '#',
            ' ',
            '=',
            '%',
        ].contains(byte as char),
{
    let bytes = seq![
        '\\',
        '|',
        '&',
        ';',
        '<',
        '>',
        '(',
        ')',
        '$',
        '`',
        '"',
        '\'',
        '*',
        '?',
        '[',
        '#',
        ' ',
        '=',
        '%',
    ];
    assert(bytes[0] == 92u8 as char);
    assert(bytes[1] == 124u8 as char);
    assert(bytes[2] == 38u8 as char);
    assert(bytes[3] == 59u8 as char);
    assert(bytes[4] == 60u8 as char);
    assert(bytes[5] == 62u8 as char);
    assert(bytes[6] == 40u8 as char);
    assert(bytes[7] == 41u8 as char);
    assert(bytes[8] == 36u8 as char);
    assert(bytes[9] == 96u8 as char);
    assert(bytes[10] == 34u8 as char);
    assert(bytes[11] == 39u8 as char);
    assert(bytes[12] == 42u8 as char);
    assert(bytes[13] == 63u8 as char);
    assert(bytes[14] == 91u8 as char);
    assert(bytes[15] == 35u8 as char);
    assert(bytes[16] == 32u8 as char);
    assert(bytes[17] == 61u8 as char);
    assert(bytes[18] == 37u8 as char);
}

/// What stands at a position decides how a field goes on: it ends at the
/// terminator, a NUL and an escape of anything but a quoted byte fail where
/// they stand, an escaped byte stands for itself, and so does any other byte.
/// A field that does not end fails at the end of the output.
pub proof fn law_fields_are_read_byte_by_byte(bytes: Seq<u8>, at: int, terminator: u8)
    requires
        terminator != 0,
        terminator != 92,
    ensures
        at == bytes.len() ==> read_field(bytes, at, terminator) == Err::<
            (Seq<u8>, int),
            (FormatCodecErrorKind, int),
        >((FormatCodecErrorKind::MissingFieldTerminator, bytes.len() as int)),
        0 <= at < bytes.len() ==> {
            let byte = bytes[at];
            let read = read_field(bytes, at, terminator);
            let behind = read_field(bytes, at + 1, terminator);
            &&& byte == terminator ==> read == Ok::<(Seq<u8>, int), (FormatCodecErrorKind, int)>(
                (Seq::empty(), at + 1),
            )
            &&& byte == 0 ==> read == Err::<(Seq<u8>, int), (FormatCodecErrorKind, int)>(
                (FormatCodecErrorKind::EmbeddedNul, at),
            )
            &&& byte != terminator && byte != 0 && byte != 92 ==> (read is Ok <==> behind is Ok)
            &&& byte != terminator && byte != 0 && byte != 92 && behind is Ok ==> read->Ok_0
                == (seq![byte] + behind->Ok_0.0, behind->Ok_0.1)
            &&& byte != terminator && byte != 0 && byte != 92 && behind is Err ==> read->Err_0
                == behind->Err_0
        },
        0 <= at < bytes.len() && bytes[at] == 92 ==> {
            let read = read_field(bytes, at, terminator);
            let behind = read_field(bytes, at + 2, terminator);
            &&& at + 1 == bytes.len() ==> read == Err::<(Seq<u8>, int), (FormatCodecErrorKind, int)>(
                (FormatCodecErrorKind::DanglingEscape, at),
            )
            &&& at + 1 < bytes.len() && !quotable(bytes[at + 1]) ==> read == Err::<
                (Seq<u8>, int),
                (FormatCodecErrorKind, int),
            >((FormatCodecErrorKind::InvalidEscape, at))
            &&& at + 1 < bytes.len() && quotable(bytes[at + 1]) ==> (read is Ok <==> behind is Ok)
            &&& at + 1 < bytes.len() && quotable(bytes[at + 1]) && behind is Ok ==> read->Ok_0 == (
                seq![bytes[at + 1]] + behind->Ok_0.0,
                behind->Ok_0.1,
            )
            &&& at + 1 < bytes.len() && quotable(bytes[at + 1]) && behind is Err ==> read->Err_0
                == behind->Err_0
        },
{
    reveal_with_fuel(read_field, 2);
}

/// A row is its fields and a line feed. A field that fails is reported with its
/// row and place, and a row that ends early, or does not end, with its row.
pub proof fn law_rows_are_read_field_by_field(
    bytes: Seq<u8>,
    at: int,
    terminator: u8,
    row: int,
    field: int,
    count: int,
)
    requires
        0 <= at,
    ensures
        field >= count ==> {
            let read = read_row(bytes, at, terminator, row, field, count);
            &&& at >= bytes.len() ==> read is Err && read->Err_0 == (FailureV {
                kind: FormatCodecErrorKind::MissingRowLf,
                phase: FormatCodecPhase::Row,
                row,
                field: None,
                offset: bytes.len() as int,
            })
            &&& at < bytes.len() && bytes[at] != 10 ==> read is Err && read->Err_0 == (FailureV {
                kind: FormatCodecErrorKind::UnexpectedRowTerminator,
                phase: FormatCodecPhase::Row,
                row,
                field: None,
                offset: at,
            })
            &&& at < bytes.len() && bytes[at] == 10 ==> read is Ok && read->Ok_0 == (
                Seq::<RawFieldV>::empty(),
                at + 1,
            )
        },
        field < count ==> {
            let read = read_row(bytes, at, terminator, row, field, count);
            let first = read_field(bytes, at, terminator);
            let rest = read_row(bytes, first->Ok_0.1, terminator, row, field + 1, count);
            &&& first matches Err((kind, offset)) ==> read is Err && read->Err_0 == (FailureV {
                kind,
                phase: FormatCodecPhase::Field,
                row,
                field: Some(field),
                offset,
            })
            &&& first is Ok ==> (read is Ok <==> rest is Ok)
            &&& first is Ok && rest is Err ==> read->Err_0 == rest->Err_0
            &&& first is Ok && rest is Ok ==> read->Ok_0 == (
                seq![RawFieldV { start: at, bytes: first->Ok_0.0 }] + rest->Ok_0.0,
                rest->Ok_0.1,
            )
        },
{
    reveal_with_fuel(read_row, 2);
}

/// Output is rows to its end, and the first row that fails fails the output.
pub proof fn law_output_is_read_row_by_row(
    bytes: Seq<u8>,
    at: int,
    terminator: u8,
    row: int,
    count: int,
)
    requires
        0 <= at,
    ensures
        at >= bytes.len() ==> read_rows(bytes, at, terminator, row, count) == Ok::<
            Seq<Seq<RawFieldV>>,
            FailureV,
        >(Seq::empty()),
        at < bytes.len() ==> {
            let read = read_rows(bytes, at, terminator, row, count);
            let first = read_row(bytes, at, terminator, row, 0, count);
            let rest = read_rows(bytes, first->Ok_0.1, terminator, row + 1, count);
            &&& first is Err ==> read is Err && read->Err_0 == first->Err_0
            &&& first is Ok ==> (read is Ok <==> rest is Ok)
            &&& first is Ok && rest is Err ==> read->Err_0 == rest->Err_0
            &&& first is Ok && rest is Ok ==> read->Ok_0 == seq![first->Ok_0.0] + rest->Ok_0
        },
{
    if read_row(bytes, at, terminator, row, 0, count) is Ok {
        lemma_row_advances(bytes, at, terminator, row, 0, count);
    }
    reveal_with_fuel(read_rows, 2);
}

} // verus!
