//! What the snapshots of the four objects have in common: values in the order
//! of the catalog, found by the names of their fields.

use vstd::prelude::*;
use vstd::string::*;
use vstd::utf8::*;

use crate::decimal;
use crate::decimal::format_signed;
use crate::decimal::format_unsigned;
use crate::formats::catalog::CatalogField;
use crate::formats::catalog::DecoderKind;
use crate::formats::catalog::EmptyPolicy;
use crate::formats::catalog::InfoPlacement;
use crate::formats::catalog::ReleaseFloor;
use crate::formats::error;
use crate::formats::error::FormatCodecError;
use crate::formats::plan;
use crate::formats::plan::FormatDescriptor;
use crate::formats::plan::FormatPlan;
use crate::formats::plan::ParsedRow;
use crate::formats::plan::PlanPurpose;
use crate::query::error as query_error;
use crate::query::error::FilterExpressionError;
use crate::query::error::FilterExpressionErrorKind;
use crate::query::filterable::FilterEnum;
use crate::query::grammar::TextOperator;
use crate::query::laws;
use crate::query::model;
use crate::query::private;
use crate::query::private::IntegerKind;
use crate::query::private::Predicate;
use crate::query::round_trip;
use crate::query::schema;
use crate::query::schema::FilterFieldSchema;
use crate::query::schema::FilterSchemaDescriptor;
use crate::query::schema::FilterValueSchema;
use crate::query::wire_model;
use crate::snapshot::hydrator;
use crate::snapshot::hydrator::Need;
use crate::snapshot::hydrator::RowHydrator;
use crate::snapshot::hydrator::WantedField;
use crate::snapshot::value;
use crate::snapshot::value::Availability;
use crate::snapshot::value::FieldScalar;
use crate::snapshot::value::PaneProgressState;
use crate::target;
use crate::target::PaneId;
use crate::target::SessionId;
use crate::target::WindowId;
use crate::text;
use crate::text::render_bool;
use crate::text::str_eq;
use crate::text::TmuxText;

verus! {

/// Whether a field always has a value: every supported release reports it, and
/// an empty value is refused or is a value.
pub open spec fn always_present(field: CatalogField) -> bool {
    field.since() == ReleaseFloor::V3_2a && !(field.when_empty() is Absent)
}

/// What a field of a snapshot owes.
pub open spec fn need(of: InfoPlacement, index: int) -> Need {
    if index == 0 {
        Need::Identity
    } else if always_present(of.field(index)) {
        Need::Value
    } else {
        Need::Evidence
    }
}

/// The fields of a snapshot and what they owe.
pub open spec fn wanted(of: InfoPlacement) -> Seq<hydrator::WantedV> {
    Seq::new(
        of.count(),
        |i: int|
            hydrator::WantedV {
                descriptor: plan::DescriptorV::Catalog(of.field(i)),
                need: need(of, i),
            },
    )
}

/// List the fields of a snapshot and what they owe.
fn list_wanted(of: InfoPlacement) -> (fields: Vec<WantedField>)
    ensures
        hydrator::wanted_views(fields@) == wanted(of),
{
    let count = of.field_count();
    let mut fields: Vec<WantedField> = Vec::new();
    let mut index: usize = 0;
    while index < count
        invariant
            index <= count,
            count == of.count(),
            fields@.len() == index,
            forall|i: int| 0 <= i < index ==> (#[trigger] fields@[i])@ == wanted(of)[i],
        decreases count - index,
    {
        let field = of.field_at(index);
        let need = if index == 0 {
            Need::Identity
        } else if field.floor() == ReleaseFloor::V3_2a && !matches!(
            field.empty_policy(),
            EmptyPolicy::Absent
        ) {
            Need::Value
        } else {
            Need::Evidence
        };
        fields.push(WantedField { descriptor: FormatDescriptor::Catalog(field), need });
        index += 1;
    }
    assert(hydrator::wanted_views(fields@) =~= wanted(of));
    fields
}

/// The values of an object, in the order of its fields.
pub struct Record {
    placement: InfoPlacement,
    values: Vec<Availability<FieldScalar>>,
}

/// The values of an object, in contracts.
#[verifier::ext_equal]
pub ghost struct RecordV {
    pub placement: InfoPlacement,
    pub values: Seq<Availability<value::ScalarV>>,
}

/// Whether values fit the fields of an object: there is one for each field, of
/// the field's kind, and none is missing where the field always has a value.
pub open spec fn fits(record: RecordV) -> bool {
    &&& record.values.len() == record.placement.count()
    &&& forall|i: int|
        0 <= i < record.values.len() ==> match #[trigger] record.values[i] {
            Availability::Available(scalar) => scalar.kind() == record.placement.field(
                i,
            ).decoded_by(),
            _ => need(record.placement, i) is Evidence,
        }
}

impl RecordV {
    /// The value of a field.
    pub open spec fn at(self, field: CatalogField) -> Availability<value::ScalarV> {
        self.values[field.place()]
    }
}

/// The position of the first field with a name.
pub open spec fn named(of: InfoPlacement, name: Seq<char>, from: int) -> Option<int>
    decreases of.count() - from,
{
    if from < 0 || from >= of.count() {
        None
    } else if of.field(from).spelling() == name {
        Some(from)
    } else {
        named(of, name, from + 1)
    }
}

/// A position that a name is found at is one of a field with the name.
pub proof fn lemma_named(of: InfoPlacement, name: Seq<char>, from: int)
    requires
        0 <= from,
    ensures
        named(of, name, from) matches Some(index) ==> from <= index < of.count() && of.field(
            index,
        ).spelling() == name,
    decreases of.count() - from,
{
    if from < of.count() && of.field(from).spelling() != name {
        lemma_named(of, name, from + 1);
    }
}

/// Find the first field with a name.
pub fn find_field(of: InfoPlacement, name: &str) -> (found: Option<usize>)
    ensures
        match found {
            Some(index) => named(of, name@, 0) == Some(index as int) && index < of.count(),
            None => named(of, name@, 0) is None,
        },
{
    let count = of.field_count();
    let mut index: usize = 0;
    while index < count
        invariant
            index <= count,
            count == of.count(),
            named(of, name@, 0) == named(of, name@, index as int),
        decreases count - index,
    {
        if str_eq(of.field_at(index).name(), name) {
            return Some(index);
        }
        index += 1;
    }
    None
}

/// The values that a row holds for an object, and the walk behind them.
pub open spec fn hydrated(walk: hydrator::WalkV, of: InfoPlacement) -> Result<
    (RecordV, hydrator::WalkV),
    error::ErrorV,
> {
    match hydrator::read_all(walk, wanted(of)) {
        Ok((values, behind)) => Ok((RecordV { placement: of, values }, behind)),
        Err(failure) => Err(failure),
    }
}

/// The snapshot that a row holds, read by a plan for snapshots of the object.
pub open spec fn snapshot_of(plan: plan::PlanV, row: plan::RowV, of: InfoPlacement) -> Result<
    RecordV,
    error::ErrorV,
> {
    if plan.purpose != PlanPurpose::Intrinsic(of) {
        Err(error::wrong_purpose(plan.profile, row.row))
    } else {
        match hydrated(hydrator::WalkV::start(plan, row), of) {
            Err(failure) => Err(failure),
            Ok((record, walk)) => match walk.unfinished() {
                Some(failure) => Err(failure),
                None => Ok(record),
            },
        }
    }
}

/// The snapshots that rows hold, or the first failure among them.
pub open spec fn all_of(plan: plan::PlanV, rows: Seq<plan::RowV>, of: InfoPlacement) -> Result<
    Seq<RecordV>,
    error::ErrorV,
>
    decreases rows.len(),
{
    if rows.len() == 0 {
        Ok(Seq::empty())
    } else {
        match all_of(plan, rows.drop_last(), of) {
            Err(failure) => Err(failure),
            Ok(records) => match snapshot_of(plan, rows.last(), of) {
                Err(failure) => Err(failure),
                Ok(record) => Ok(records.push(record)),
            },
        }
    }
}

/// A failure among the first rows is the failure of them all.
pub proof fn lemma_first_failure(
    plan: plan::PlanV,
    rows: Seq<plan::RowV>,
    of: InfoPlacement,
    count: int,
    failure: error::ErrorV,
)
    requires
        0 <= count <= rows.len(),
        all_of(plan, rows.take(count), of) == Err::<Seq<RecordV>, error::ErrorV>(failure),
    ensures
        all_of(plan, rows, of) == Err::<Seq<RecordV>, error::ErrorV>(failure),
    decreases rows.len() - count,
{
    if count < rows.len() {
        let longer = rows.take(count + 1);
        assert(longer.drop_last() =~= rows.take(count));
        lemma_first_failure(plan, rows, of, count + 1, failure);
    } else {
        assert(rows.take(count) =~= rows);
    }
}

/// The snapshots that a listing's output holds.
pub open spec fn snapshots_of(plan: plan::PlanV, stdout: Seq<u8>, of: InfoPlacement) -> Result<
    Seq<RecordV>,
    error::ErrorV,
> {
    match plan::parsed(plan::selected(plan.planned), stdout) {
        Err(failure) => Err(failure),
        Ok(rows) => all_of(plan, rows, of),
    }
}

/// The outcome of hydration in contracts.
pub open spec fn record_view(read: Result<Record, FormatCodecError>) -> Result<
    RecordV,
    error::ErrorV,
> {
    match read {
        Ok(record) => Ok(record@),
        Err(failure) => Err(failure@),
    }
}

impl Record {
    /// The values in contracts.
    pub closed spec fn view(&self) -> RecordV {
        RecordV { placement: self.placement, values: value::value_views(self.values@) }
    }

    #[verifier::type_invariant]
    spec fn valid(self) -> bool {
        fits(self@)
    }

    /// Read the values of an object from a row.
    ///
    /// # Errors
    ///
    /// The first field that does not belong to the plan or does not decode.
    pub fn decode(walk: &mut RowHydrator<'_, '_>, of: InfoPlacement) -> (read: Result<
        Record,
        FormatCodecError,
    >)
        requires
            old(walk).inside(),
        ensures
            match hydrated(old(walk)@, of) {
                Ok((record, behind)) => read is Ok && read->Ok_0@ == record && final(walk)@
                    == behind && final(walk).inside(),
                Err(failure) => read is Err && read->Err_0@ == failure,
            },
    {
        let ghost start = walk@;
        let fields = list_wanted(of);
        match walk.decode_all(&fields) {
            Ok(values) => {
                proof {
                    hydrator::lemma_read_shape(start, wanted(of));
                    let read = value::value_views(values@);
                    assert forall|i: int| 0 <= i < read.len() implies match #[trigger] read[i] {
                        Availability::Available(scalar) => scalar.kind() == of.field(
                            i,
                        ).decoded_by(),
                        _ => need(of, i) is Evidence,
                    } by {
                        assert(wanted(of)[i].descriptor == plan::DescriptorV::Catalog(of.field(i)));
                    }
                }
                Ok(Record { placement: of, values })
            },
            Err(failure) => Err(failure),
        }
    }

    /// Read a snapshot from a row.
    ///
    /// # Errors
    ///
    /// [`FormatCodecErrorKind::PlanRowMismatch`](crate::formats::error::FormatCodecErrorKind)
    /// for a plan that was not made for snapshots of the object, the first
    /// field that does not belong to the plan or does not decode, and a field
    /// that is left.
    pub fn hydrate(plan: &FormatPlan, row: &ParsedRow, of: InfoPlacement) -> (read: Result<
        Record,
        FormatCodecError,
    >)
        ensures
            record_view(read) == snapshot_of(plan@, row@, of),
    {
        let matched = match plan.purpose() {
            PlanPurpose::Intrinsic(placement) => placement == of,
            _ => false,
        };
        if !matched {
            return Err(FormatCodecError::purpose_mismatch(plan.profile(), row.row()));
        }
        let mut walk = RowHydrator::new(plan, row);
        let record = match Record::decode(&mut walk, of) {
            Ok(record) => record,
            Err(failure) => return Err(failure),
        };
        match walk.finish() {
            Ok(()) => Ok(record),
            Err(failure) => Err(failure),
        }
    }

    /// The value at a position.
    pub fn value(&self, index: usize) -> (found: &Availability<FieldScalar>)
        requires
            index < self@.placement.count(),
        ensures
            value::value_view(*found) == self@.values[index as int],
            fits(self@),
    {
        proof {
            use_type_invariant(self);
        }
        assert(value::value_views(self.values@)[index as int] == value::value_view(
            self.values@[index as int],
        ));
        &self.values[index]
    }

    /// Copy the values.
    pub fn copy(&self) -> (copy: Record)
        ensures
            copy@ == self@,
    {
        proof {
            use_type_invariant(self);
        }
        let mut values: Vec<Availability<FieldScalar>> = Vec::new();
        let mut index: usize = 0;
        while index < self.values.len()
            invariant
                index <= self.values@.len(),
                values@.len() == index,
                forall|i: int|
                    0 <= i < index ==> value::value_view(#[trigger] values@[i])
                        == value::value_view(self.values@[i]),
            decreases self.values@.len() - index,
        {
            let copy = match &self.values[index] {
                Availability::Unsupported => Availability::Unsupported,
                Availability::Unproven => Availability::Unproven,
                Availability::Absent => Availability::Absent,
                Availability::Available(scalar) => Availability::Available(scalar.copy()),
            };
            values.push(copy);
            index += 1;
        }
        assert(value::value_views(values@) =~= value::value_views(self.values@));
        Record { placement: self.placement, values }
    }

    /// Report whether two objects of one kind have the same values.
    pub fn same(&self, other: &Record) -> (same: bool)
        ensures
            same == (self@ == other@),
    {
        if self.placement != other.placement || self.values.len() != other.values.len() {
            assert(self@.placement != other@.placement || self@.values.len()
                != other@.values.len());
            return false;
        }
        let mut index: usize = 0;
        while index < self.values.len()
            invariant
                index <= self.values@.len(),
                self.values@.len() == other.values@.len(),
                forall|i: int|
                    0 <= i < index ==> value::value_view(#[trigger] self.values@[i])
                        == value::value_view(other.values@[i]),
            decreases self.values@.len() - index,
        {
            let same = match (&self.values[index], &other.values[index]) {
                (Availability::Unsupported, Availability::Unsupported) => true,
                (Availability::Unproven, Availability::Unproven) => true,
                (Availability::Absent, Availability::Absent) => true,
                (Availability::Available(left), Availability::Available(right)) => left.same(right),
                _ => false,
            };
            if !same {
                assert(self@.values[index as int] != other@.values[index as int]);
                return false;
            }
            index += 1;
        }
        assert(self@.values =~= other@.values);
        true
    }
}

/// Whether the value of a field passes a test. Identities are texts to a test.
pub open spec fn scalar_passes(scalar: value::ScalarV, test: Option<model::ScalarV>) -> bool {
    match scalar {
        value::ScalarV::Ascii(bytes) => model::bytes_pass(test, bytes),
        value::ScalarV::Text(bytes) => model::bytes_pass(test, bytes),
        value::ScalarV::Bool(flag) => model::bool_passes(test, flag),
        value::ScalarV::U8(number) => model::unsigned_passes(test, number as int),
        value::ScalarV::U32(number) => model::unsigned_passes(test, number as int),
        value::ScalarV::U64(number) => model::unsigned_passes(test, number as int),
        value::ScalarV::I32(number) => model::signed_passes(test, number as int),
        value::ScalarV::Timestamp(number) => model::signed_passes(test, number as int),
        value::ScalarV::SessionId(number) => model::bytes_pass(
            test,
            encode_utf8(target::id_text('$', number)),
        ),
        value::ScalarV::WindowId(number) => model::bytes_pass(
            test,
            encode_utf8(target::id_text('@', number)),
        ),
        value::ScalarV::PaneId(number) => model::bytes_pass(
            test,
            encode_utf8(target::id_text('%', number)),
        ),
        value::ScalarV::PaneProgress(number) => model::unsigned_passes(test, number as int),
        value::ScalarV::PaneProgressState(state) => model::enum_passes(test, state.name()),
    }
}

/// Whether a field passes a test. A field without a value passes none.
pub open spec fn value_passes(
    found: Availability<value::ScalarV>,
    test: Option<model::ScalarV>,
) -> bool {
    match found {
        Availability::Available(scalar) => scalar_passes(scalar, test),
        _ => false,
    }
}

/// Whether an object passes a predicate on one of its fields.
pub open spec fn record_passes(record: RecordV, predicate: model::PredicateV) -> bool {
    match named(record.placement, predicate.field, 0) {
        Some(index) => value_passes(record.values[index], predicate.data.scalar()),
        None => false,
    }
}

/// What validating a test against a field of a kind answers.
pub open spec fn checked_by(kind: DecoderKind, data: model::DataV) -> (
    Option<FilterExpressionErrorKind>,
    model::DataV,
) {
    match kind {
        DecoderKind::Ascii
        | DecoderKind::Text
        | DecoderKind::SessionId
        | DecoderKind::WindowId
        | DecoderKind::PaneId => model::validated_text(data),
        DecoderKind::Bool => model::validated_bool(data),
        DecoderKind::U8 | DecoderKind::PaneProgress => model::validated_integer(
            data,
            IntegerKind::U8,
        ),
        DecoderKind::U32 => model::validated_integer(data, IntegerKind::U32),
        DecoderKind::U64 => model::validated_integer(data, IntegerKind::U64),
        DecoderKind::I32 => model::validated_integer(data, IntegerKind::I32),
        DecoderKind::Timestamp => model::validated_integer(data, IntegerKind::I64),
        DecoderKind::PaneProgressState => model::validated_enum(
            data,
            PaneProgressState::variant_names(),
        ),
    }
}

/// What validating a test against a named field of an object answers.
pub open spec fn checked_field(of: InfoPlacement, field: Seq<char>, data: model::DataV) -> (
    Option<FilterExpressionErrorKind>,
    model::DataV,
) {
    match named(of, field, 0) {
        Some(index) => checked_by(of.field(index).decoded_by(), data),
        None => (Some(FilterExpressionErrorKind::UnknownField), data),
    }
}

/// A test that a field accepts settles on the same test again.
pub proof fn lemma_field_settles_again(of: InfoPlacement, field: Seq<char>, data: model::DataV)
    requires
        checked_field(of, field, data).0 is None,
        wire_model::faithful(data),
    ensures
        wire_model::settles_again(
            data,
            checked_field(of, field, data).1,
            checked_field(of, field, wire_model::wire_test(checked_field(of, field, data).1)),
        ),
{
    let index = named(of, field, 0)->0;
    match of.field(index).decoded_by() {
        DecoderKind::Ascii
        | DecoderKind::Text
        | DecoderKind::SessionId
        | DecoderKind::WindowId
        | DecoderKind::PaneId => round_trip::lemma_text_settles_again(data),
        DecoderKind::Bool => round_trip::lemma_bool_settles_again(data),
        DecoderKind::U8 | DecoderKind::PaneProgress => round_trip::lemma_integer_settles_again(
            data,
            IntegerKind::U8,
        ),
        DecoderKind::U32 => round_trip::lemma_integer_settles_again(data, IntegerKind::U32),
        DecoderKind::U64 => round_trip::lemma_integer_settles_again(data, IntegerKind::U64),
        DecoderKind::I32 => round_trip::lemma_integer_settles_again(data, IntegerKind::I32),
        DecoderKind::Timestamp => round_trip::lemma_integer_settles_again(data, IntegerKind::I64),
        DecoderKind::PaneProgressState => round_trip::lemma_enum_settles_again(
            data,
            PaneProgressState::variant_names(),
        ),
    }
}

/// An object answers predicates that are one predicate alike.
pub proof fn lemma_record_passes_alike(
    record: RecordV,
    left: model::PredicateV,
    right: model::PredicateV,
)
    requires
        model::same_predicate(left, right),
        wire_model::well_formed(model::ExprV::Predicate(left)),
        wire_model::well_formed(model::ExprV::Predicate(right)),
        wire_model::sound(model::ExprV::Predicate(left)),
        wire_model::sound(model::ExprV::Predicate(right)),
    ensures
        record_passes(record, left) == record_passes(record, right),
{
    round_trip::lemma_relations_stay_apart(left, right);
    if !(left.data is Relation) {
        round_trip::lemma_scalars_alike(left.data, right.data);
    }
}

/// A test on a field whose literals are known is settled already.
pub proof fn lemma_known_literals_are_settled(
    of: InfoPlacement,
    field: Seq<char>,
    data: model::DataV,
)
    requires
        checked_field(of, field, data).0 is None,
        data.is_resolved(),
    ensures
        checked_field(of, field, data).1 == data,
{
}

/// Report whether the value of a field passes a predicate.
fn scalar_matches(scalar: &FieldScalar, predicate: &Predicate) -> (passes: bool)
    ensures
        passes == scalar_passes(scalar@, predicate@.data.scalar()),
{
    match scalar {
        FieldScalar::Ascii(text) | FieldScalar::Text(text) => predicate.matches_text(
            text.as_bytes(),
        ),
        FieldScalar::Bool(flag) => predicate.matches_bool(*flag),
        FieldScalar::U8(number) | FieldScalar::PaneProgress(number) => predicate.matches_unsigned(
            *number as u128,
        ),
        FieldScalar::U32(number) => predicate.matches_unsigned(*number as u128),
        FieldScalar::U64(number) => predicate.matches_unsigned(*number as u128),
        FieldScalar::I32(number) => predicate.matches_signed(*number as i128),
        FieldScalar::Timestamp(number) => predicate.matches_signed(*number as i128),
        FieldScalar::SessionId(id) => predicate.matches_text(id.text().as_str().as_bytes()),
        FieldScalar::WindowId(id) => predicate.matches_text(id.text().as_str().as_bytes()),
        FieldScalar::PaneId(id) => predicate.matches_text(id.text().as_str().as_bytes()),
        FieldScalar::PaneProgressState(state) => predicate.matches_enum(state.filter_name()),
    }
}

/// Validate a predicate against a field of a kind.
fn validate_kind(kind: DecoderKind, predicate: &mut Predicate) -> (result: Result<
    (),
    FilterExpressionError,
>)
    ensures
        (query_error::reason(result), final(predicate)@.data) == checked_by(
            kind,
            old(predicate)@.data,
        ),
        final(predicate)@.field == old(predicate)@.field,
        final(predicate)@.target == old(predicate)@.target,
{
    match kind {
        DecoderKind::Ascii
        | DecoderKind::Text
        | DecoderKind::SessionId
        | DecoderKind::WindowId
        | DecoderKind::PaneId => predicate.validate_text(),
        DecoderKind::Bool => predicate.validate_bool(),
        DecoderKind::U8 | DecoderKind::PaneProgress => predicate.validate_integer(
            IntegerKind::U8,
        ),
        DecoderKind::U32 => predicate.validate_integer(IntegerKind::U32),
        DecoderKind::U64 => predicate.validate_integer(IntegerKind::U64),
        DecoderKind::I32 => predicate.validate_integer(IntegerKind::I32),
        DecoderKind::Timestamp => predicate.validate_integer(IntegerKind::I64),
        DecoderKind::PaneProgressState => {
            let variants = PaneProgressState::filter_variants();
            assert(private::names(variants@) =~= PaneProgressState::variant_names());
            predicate.validate_enum(variants.as_slice())
        },
    }
}

/// Validate a predicate against the field of an object that it names.
pub fn validate_field(of: InfoPlacement, predicate: &mut Predicate) -> (result: Result<
    (),
    FilterExpressionError,
>)
    ensures
        (query_error::reason(result), final(predicate)@.data) == checked_field(
            of,
            old(predicate)@.field,
            old(predicate)@.data,
        ),
        final(predicate)@.field == old(predicate)@.field,
        final(predicate)@.target == old(predicate)@.target,
{
    match find_field(of, predicate.field()) {
        Some(index) => validate_kind(of.field_at(index).decoder(), predicate),
        None => Err(private::unknown_field_error()),
    }
}

impl Record {
    /// Report whether the object passes a predicate on one of its fields.
    pub fn matches(&self, predicate: &Predicate) -> (passes: bool)
        ensures
            passes == record_passes(self@, predicate@),
    {
        match find_field(self.placement, predicate.field()) {
            Some(index) => match self.value(index) {
                Availability::Available(scalar) => scalar_matches(scalar, predicate),
                Availability::Unsupported | Availability::Unproven | Availability::Absent => false,
            },
            None => false,
        }
    }
}

/// The family that filter expressions see in a kind of field.
pub open spec fn family(kind: DecoderKind) -> schema::FamilyV {
    match kind {
        DecoderKind::Ascii
        | DecoderKind::Text
        | DecoderKind::SessionId
        | DecoderKind::WindowId
        | DecoderKind::PaneId => schema::FamilyV::Text,
        DecoderKind::Bool => schema::FamilyV::Bool,
        DecoderKind::U8
        | DecoderKind::U32
        | DecoderKind::U64
        | DecoderKind::PaneProgress => schema::FamilyV::Unsigned,
        DecoderKind::I32 | DecoderKind::Timestamp => schema::FamilyV::Signed,
        DecoderKind::PaneProgressState => schema::FamilyV::Enum(PaneProgressState::variant_names()),
    }
}

/// The grammar of an object's fields, under a target's name.
pub open spec fn described(of: InfoPlacement, target: Seq<char>) -> schema::DescriptorV {
    schema::DescriptorV {
        target,
        fields: Seq::new(
            of.count(),
            |i: int|
                schema::FieldV {
                    name: of.field(i).spelling(),
                    kind: family(of.field(i).decoded_by()),
                },
        ),
    }
}

/// A grammar without relations is closed.
pub proof fn lemma_described_is_closed(of: InfoPlacement, target: Seq<char>)
    ensures
        schema::closed_catalog(seq![described(of, target)]),
{
}

/// Describe the grammar of an object's fields, under a target's name.
pub fn describe(of: InfoPlacement, target: &'static str) -> (descriptor: FilterSchemaDescriptor)
    ensures
        descriptor@ == described(of, target@),
{
    let count = of.field_count();
    let mut fields: Vec<FilterFieldSchema> = Vec::new();
    let mut index: usize = 0;
    while index < count
        invariant
            index <= count,
            count == of.count(),
            fields@.len() == index,
            forall|i: int|
                0 <= i < index ==> (#[trigger] fields@[i])@ == described(of, target@).fields[i],
        decreases count - index,
    {
        let field = of.field_at(index);
        let kind = match field.decoder() {
            DecoderKind::Ascii
            | DecoderKind::Text
            | DecoderKind::SessionId
            | DecoderKind::WindowId
            | DecoderKind::PaneId => FilterValueSchema::Text,
            DecoderKind::Bool => FilterValueSchema::Bool,
            DecoderKind::U8
            | DecoderKind::U32
            | DecoderKind::U64
            | DecoderKind::PaneProgress => FilterValueSchema::Unsigned,
            DecoderKind::I32 | DecoderKind::Timestamp => FilterValueSchema::Signed,
            DecoderKind::PaneProgressState => {
                let variants = PaneProgressState::filter_variants();
                assert(text::slices(variants@) =~= PaneProgressState::variant_names());
                FilterValueSchema::Enum(variants)
            },
        };
        fields.push(FilterFieldSchema::new(field.name(), kind));
        index += 1;
    }
    assert(schema::field_views(fields@) =~= described(of, target@).fields);
    FilterSchemaDescriptor::new(target, fields)
}

/// The rendering of a value. It shows how long a text is and none of its bytes.
pub open spec fn scalar_rendering(scalar: value::ScalarV) -> Seq<char> {
    match scalar {
        value::ScalarV::Ascii(bytes) => text::redacted_text(bytes.len()),
        value::ScalarV::Text(bytes) => text::redacted_text(bytes.len()),
        value::ScalarV::Bool(flag) => text::bool_text(flag),
        value::ScalarV::U8(number) => decimal::signed_decimal(number as int),
        value::ScalarV::U32(number) => decimal::signed_decimal(number as int),
        value::ScalarV::U64(number) => decimal::signed_decimal(number as int),
        value::ScalarV::I32(number) => decimal::signed_decimal(number as int),
        value::ScalarV::Timestamp(number) => decimal::signed_decimal(number as int),
        value::ScalarV::SessionId(number) => target::id_text('$', number),
        value::ScalarV::WindowId(number) => target::id_text('@', number),
        value::ScalarV::PaneId(number) => target::id_text('%', number),
        value::ScalarV::PaneProgress(number) => decimal::signed_decimal(number as int),
        value::ScalarV::PaneProgressState(state) => state.label(),
    }
}

/// The rendering of a field.
pub open spec fn value_rendering(
    field: CatalogField,
    found: Availability<value::ScalarV>,
) -> Seq<char> {
    match found {
        Availability::Unsupported => "Unsupported"@,
        Availability::Unproven => "Unproven"@,
        Availability::Absent => "Absent"@,
        Availability::Available(scalar) => if always_present(field) {
            scalar_rendering(scalar)
        } else {
            "Available("@ + scalar_rendering(scalar) + ")"@
        },
    }
}

/// The rendering of the first fields of an object.
pub open spec fn fields_rendering(record: RecordV, count: int) -> Seq<char>
    decreases count,
{
    if count <= 0 {
        Seq::empty()
    } else {
        fields_rendering(record, count - 1) + (if count == 1 {
            " "@
        } else {
            ", "@
        }) + record.placement.field(count - 1).spelling() + ": "@ + value_rendering(
            record.placement.field(count - 1),
            record.values[count - 1],
        )
    }
}

/// The rendering of an object.
pub open spec fn record_rendering(name: Seq<char>, record: RecordV) -> Seq<char> {
    name + " {"@ + fields_rendering(record, record.values.len() as int) + " }"@
}

/// Render a value without the bytes of a text.
fn render_scalar(scalar: &FieldScalar) -> (rendering: String)
    ensures
        rendering@ == scalar_rendering(scalar@),
{
    match scalar {
        FieldScalar::Ascii(text) | FieldScalar::Text(text) => text.debug_text(),
        FieldScalar::Bool(flag) => render_bool(*flag),
        FieldScalar::U8(number) | FieldScalar::PaneProgress(number) => format_unsigned(
            *number as u128,
        ),
        FieldScalar::U32(number) => format_unsigned(*number as u128),
        FieldScalar::U64(number) => format_unsigned(*number as u128),
        FieldScalar::I32(number) => format_signed(*number as i128),
        FieldScalar::Timestamp(number) => format_signed(*number as i128),
        FieldScalar::SessionId(id) => id.text(),
        FieldScalar::WindowId(id) => id.text(),
        FieldScalar::PaneId(id) => id.text(),
        FieldScalar::PaneProgressState(state) => state.render().to_owned(),
    }
}

/// Render a field without the bytes of a text.
fn render_value(field: CatalogField, found: &Availability<FieldScalar>) -> (rendering: String)
    ensures
        rendering@ == value_rendering(field, value::value_view(*found)),
{
    match found {
        Availability::Unsupported => "Unsupported".to_owned(),
        Availability::Unproven => "Unproven".to_owned(),
        Availability::Absent => "Absent".to_owned(),
        Availability::Available(scalar) => {
            let shown = render_scalar(scalar);
            if field.floor() == ReleaseFloor::V3_2a && field.empty_policy() != EmptyPolicy::Absent {
                shown
            } else {
                let mut rendering = "Available(".to_owned();
                rendering.append(shown.as_str());
                rendering.append(")");
                rendering
            }
        },
    }
}

impl Record {
    /// Render the object without the bytes of its texts.
    pub fn debug_text(&self, name: &str) -> (rendering: String)
        ensures
            rendering@ == record_rendering(name@, self@),
    {
        proof {
            use_type_invariant(self);
        }
        let ghost record = self@;
        let mut rendering = name.to_owned();
        rendering.append(" {");
        let ghost opening = rendering@;
        let mut index: usize = 0;
        assert(opening + fields_rendering(record, 0) =~= opening);
        while index < self.values.len()
            invariant
                index <= self.values@.len(),
                record == self@,
                fits(record),
                record.values == value::value_views(self.values@),
                record.placement == self.placement,
                rendering@ == opening + fields_rendering(record, index as int),
            decreases self.values@.len() - index,
        {
            assert(record.values[index as int] == value::value_view(self.values@[index as int]));
            if index == 0 {
                rendering.append(" ");
            } else {
                rendering.append(", ");
            }
            let field = self.placement.field_at(index);
            rendering.append(field.name());
            rendering.append(": ");
            rendering.append(render_value(field, &self.values[index]).as_str());
            assert(rendering@ =~= opening + fields_rendering(record, index + 1));
            index += 1;
        }
        rendering.append(" }");
        rendering
    }
}

/// Whether two values differ in the bytes of a text only, and not in its
/// length.
pub open spec fn alike(left: Availability<value::ScalarV>, right: Availability<value::ScalarV>) -> bool {
    match (left, right) {
        (
            Availability::Available(value::ScalarV::Text(left)),
            Availability::Available(value::ScalarV::Text(right)),
        ) => left.len() == right.len(),
        (
            Availability::Available(value::ScalarV::Ascii(left)),
            Availability::Available(value::ScalarV::Ascii(right)),
        ) => left.len() == right.len(),
        _ => left == right,
    }
}

/// The rendering of an object shows no byte of a text: objects whose texts
/// differ in their bytes only are rendered alike.
pub proof fn law_renderings_hide_texts(name: Seq<char>, left: RecordV, right: RecordV)
    requires
        left.placement == right.placement,
        left.values.len() == right.values.len(),
        forall|i: int| 0 <= i < left.values.len() ==> alike(#[trigger] left.values[i], right.values[i]),
    ensures
        record_rendering(name, left) == record_rendering(name, right),
{
    lemma_fields_hide_texts(left, right, left.values.len() as int);
}

proof fn lemma_fields_hide_texts(left: RecordV, right: RecordV, count: int)
    requires
        left.placement == right.placement,
        left.values.len() == right.values.len(),
        count <= left.values.len(),
        forall|i: int| 0 <= i < left.values.len() ==> alike(#[trigger] left.values[i], right.values[i]),
    ensures
        fields_rendering(left, count) == fields_rendering(right, count),
    decreases count,
{
    if count > 0 {
        lemma_fields_hide_texts(left, right, count - 1);
        assert(alike(left.values[count - 1], right.values[count - 1]));
    }
}

/// Whether a position is one of a field of a kind that always has a value.
pub open spec fn holds(record: RecordV, index: int, kind: DecoderKind) -> bool {
    0 <= index < record.placement.count() && record.placement.field(index).decoded_by() == kind && !(
    need(record.placement, index) is Evidence)
}

/// Whether a position is one of a field of a kind.
pub open spec fn may_hold(record: RecordV, index: int, kind: DecoderKind) -> bool {
    0 <= index < record.placement.count() && record.placement.field(index).decoded_by() == kind
}

impl Record {
    /// The value of a field that always has one.
    pub fn text(&self, index: usize) -> (value: &TmuxText)
        requires
            holds(self@, index as int, DecoderKind::Text),
        ensures
            self@.values[index as int] == Availability::Available(value::ScalarV::Text(value@)),
    {
        match self.value(index) {
            Availability::Available(FieldScalar::Text(value)) => value,
            _ => vstd::pervasive::unreached(),
        }
    }

    /// The value of a field that always has one.
    pub fn bool(&self, index: usize) -> (value: &bool)
        requires
            holds(self@, index as int, DecoderKind::Bool),
        ensures
            self@.values[index as int] == Availability::Available(value::ScalarV::Bool(*value)),
    {
        match self.value(index) {
            Availability::Available(FieldScalar::Bool(value)) => value,
            _ => vstd::pervasive::unreached(),
        }
    }

    /// The value of a field that always has one.
    pub fn u32(&self, index: usize) -> (value: &u32)
        requires
            holds(self@, index as int, DecoderKind::U32),
        ensures
            self@.values[index as int] == Availability::Available(value::ScalarV::U32(*value)),
    {
        match self.value(index) {
            Availability::Available(FieldScalar::U32(value)) => value,
            _ => vstd::pervasive::unreached(),
        }
    }

    /// The value of a field that always has one.
    pub fn u64(&self, index: usize) -> (value: &u64)
        requires
            holds(self@, index as int, DecoderKind::U64),
        ensures
            self@.values[index as int] == Availability::Available(value::ScalarV::U64(*value)),
    {
        match self.value(index) {
            Availability::Available(FieldScalar::U64(value)) => value,
            _ => vstd::pervasive::unreached(),
        }
    }

    /// The value of a field that always has one.
    pub fn i32(&self, index: usize) -> (value: &i32)
        requires
            holds(self@, index as int, DecoderKind::I32),
        ensures
            self@.values[index as int] == Availability::Available(value::ScalarV::I32(*value)),
    {
        match self.value(index) {
            Availability::Available(FieldScalar::I32(value)) => value,
            _ => vstd::pervasive::unreached(),
        }
    }

    /// The value of a field that always has one.
    pub fn timestamp(&self, index: usize) -> (value: &i64)
        requires
            holds(self@, index as int, DecoderKind::Timestamp),
        ensures
            self@.values[index as int] == Availability::Available(value::ScalarV::Timestamp(*value)),
    {
        match self.value(index) {
            Availability::Available(FieldScalar::Timestamp(value)) => value,
            _ => vstd::pervasive::unreached(),
        }
    }

    /// The value of a field that always has one.
    pub fn session_id(&self, index: usize) -> (value: &SessionId)
        requires
            holds(self@, index as int, DecoderKind::SessionId),
        ensures
            self@.values[index as int] == Availability::Available(value::ScalarV::SessionId(value@)),
    {
        match self.value(index) {
            Availability::Available(FieldScalar::SessionId(value)) => value,
            _ => vstd::pervasive::unreached(),
        }
    }

    /// The value of a field that always has one.
    pub fn window_id(&self, index: usize) -> (value: &WindowId)
        requires
            holds(self@, index as int, DecoderKind::WindowId),
        ensures
            self@.values[index as int] == Availability::Available(value::ScalarV::WindowId(value@)),
    {
        match self.value(index) {
            Availability::Available(FieldScalar::WindowId(value)) => value,
            _ => vstd::pervasive::unreached(),
        }
    }

    /// The value of a field that always has one.
    pub fn pane_id(&self, index: usize) -> (value: &PaneId)
        requires
            holds(self@, index as int, DecoderKind::PaneId),
        ensures
            self@.values[index as int] == Availability::Available(value::ScalarV::PaneId(value@)),
    {
        match self.value(index) {
            Availability::Available(FieldScalar::PaneId(value)) => value,
            _ => vstd::pervasive::unreached(),
        }
    }

    /// The evidence of a field that can be missing.
    pub fn text_evidence(&self, index: usize) -> (found: Availability<&TmuxText>)
        requires
            may_hold(self@, index as int, DecoderKind::Text),
        ensures
            self@.values[index as int] == match found {
                Availability::Unsupported => Availability::Unsupported,
                Availability::Unproven => Availability::Unproven,
                Availability::Absent => Availability::Absent,
                Availability::Available(value) => Availability::Available(
                    value::ScalarV::Text(value@),
                ),
            },
    {
        match self.value(index) {
            Availability::Unsupported => Availability::Unsupported,
            Availability::Unproven => Availability::Unproven,
            Availability::Absent => Availability::Absent,
            Availability::Available(FieldScalar::Text(value)) => Availability::Available(value),
            Availability::Available(_) => vstd::pervasive::unreached(),
        }
    }

    /// The evidence of a field that can be missing.
    pub fn bool_evidence(&self, index: usize) -> (found: Availability<&bool>)
        requires
            may_hold(self@, index as int, DecoderKind::Bool),
        ensures
            self@.values[index as int] == match found {
                Availability::Unsupported => Availability::Unsupported,
                Availability::Unproven => Availability::Unproven,
                Availability::Absent => Availability::Absent,
                Availability::Available(value) => Availability::Available(
                    value::ScalarV::Bool(*value),
                ),
            },
    {
        match self.value(index) {
            Availability::Unsupported => Availability::Unsupported,
            Availability::Unproven => Availability::Unproven,
            Availability::Absent => Availability::Absent,
            Availability::Available(FieldScalar::Bool(value)) => Availability::Available(value),
            Availability::Available(_) => vstd::pervasive::unreached(),
        }
    }

    /// The evidence of a field that can be missing.
    pub fn u8_evidence(&self, index: usize) -> (found: Availability<&u8>)
        requires
            may_hold(self@, index as int, DecoderKind::U8),
        ensures
            self@.values[index as int] == match found {
                Availability::Unsupported => Availability::Unsupported,
                Availability::Unproven => Availability::Unproven,
                Availability::Absent => Availability::Absent,
                Availability::Available(value) => Availability::Available(
                    value::ScalarV::U8(*value),
                ),
            },
    {
        match self.value(index) {
            Availability::Unsupported => Availability::Unsupported,
            Availability::Unproven => Availability::Unproven,
            Availability::Absent => Availability::Absent,
            Availability::Available(FieldScalar::U8(value)) => Availability::Available(value),
            Availability::Available(_) => vstd::pervasive::unreached(),
        }
    }

    /// The evidence of a field that can be missing.
    pub fn u32_evidence(&self, index: usize) -> (found: Availability<&u32>)
        requires
            may_hold(self@, index as int, DecoderKind::U32),
        ensures
            self@.values[index as int] == match found {
                Availability::Unsupported => Availability::Unsupported,
                Availability::Unproven => Availability::Unproven,
                Availability::Absent => Availability::Absent,
                Availability::Available(value) => Availability::Available(
                    value::ScalarV::U32(*value),
                ),
            },
    {
        match self.value(index) {
            Availability::Unsupported => Availability::Unsupported,
            Availability::Unproven => Availability::Unproven,
            Availability::Absent => Availability::Absent,
            Availability::Available(FieldScalar::U32(value)) => Availability::Available(value),
            Availability::Available(_) => vstd::pervasive::unreached(),
        }
    }

    /// The evidence of a field that can be missing.
    pub fn i32_evidence(&self, index: usize) -> (found: Availability<&i32>)
        requires
            may_hold(self@, index as int, DecoderKind::I32),
        ensures
            self@.values[index as int] == match found {
                Availability::Unsupported => Availability::Unsupported,
                Availability::Unproven => Availability::Unproven,
                Availability::Absent => Availability::Absent,
                Availability::Available(value) => Availability::Available(
                    value::ScalarV::I32(*value),
                ),
            },
    {
        match self.value(index) {
            Availability::Unsupported => Availability::Unsupported,
            Availability::Unproven => Availability::Unproven,
            Availability::Absent => Availability::Absent,
            Availability::Available(FieldScalar::I32(value)) => Availability::Available(value),
            Availability::Available(_) => vstd::pervasive::unreached(),
        }
    }

    /// The evidence of a field that can be missing.
    pub fn timestamp_evidence(&self, index: usize) -> (found: Availability<&i64>)
        requires
            may_hold(self@, index as int, DecoderKind::Timestamp),
        ensures
            self@.values[index as int] == match found {
                Availability::Unsupported => Availability::Unsupported,
                Availability::Unproven => Availability::Unproven,
                Availability::Absent => Availability::Absent,
                Availability::Available(value) => Availability::Available(
                    value::ScalarV::Timestamp(*value),
                ),
            },
    {
        match self.value(index) {
            Availability::Unsupported => Availability::Unsupported,
            Availability::Unproven => Availability::Unproven,
            Availability::Absent => Availability::Absent,
            Availability::Available(FieldScalar::Timestamp(value)) => Availability::Available(value),
            Availability::Available(_) => vstd::pervasive::unreached(),
        }
    }

    /// The evidence of a field that can be missing.
    pub fn pane_progress_evidence(&self, index: usize) -> (found: Availability<&u8>)
        requires
            may_hold(self@, index as int, DecoderKind::PaneProgress),
        ensures
            self@.values[index as int] == match found {
                Availability::Unsupported => Availability::Unsupported,
                Availability::Unproven => Availability::Unproven,
                Availability::Absent => Availability::Absent,
                Availability::Available(value) => Availability::Available(
                    value::ScalarV::PaneProgress(*value),
                ),
            },
    {
        match self.value(index) {
            Availability::Unsupported => Availability::Unsupported,
            Availability::Unproven => Availability::Unproven,
            Availability::Absent => Availability::Absent,
            Availability::Available(FieldScalar::PaneProgress(value)) => Availability::Available(value),
            Availability::Available(_) => vstd::pervasive::unreached(),
        }
    }

    /// The evidence of a field that can be missing.
    pub fn pane_progress_state_evidence(&self, index: usize) -> (found: Availability<&PaneProgressState>)
        requires
            may_hold(self@, index as int, DecoderKind::PaneProgressState),
        ensures
            self@.values[index as int] == match found {
                Availability::Unsupported => Availability::Unsupported,
                Availability::Unproven => Availability::Unproven,
                Availability::Absent => Availability::Absent,
                Availability::Available(value) => Availability::Available(
                    value::ScalarV::PaneProgressState(*value),
                ),
            },
    {
        match self.value(index) {
            Availability::Unsupported => Availability::Unsupported,
            Availability::Unproven => Availability::Unproven,
            Availability::Absent => Availability::Absent,
            Availability::Available(FieldScalar::PaneProgressState(value)) => Availability::Available(value),
            Availability::Available(_) => vstd::pervasive::unreached(),
        }
    }
}

/// A snapshot of a row holds what each planned field gives, one value for each
/// field of the object and in their order, and nothing of the row is left over.
pub proof fn law_snapshots_hold_what_the_fields_give(
    plan: plan::PlanV,
    row: plan::RowV,
    of: InfoPlacement,
    index: int,
)
    requires
        snapshot_of(plan, row, of) is Ok,
        0 <= index < of.count(),
    ensures
        ({
            let record = snapshot_of(plan, row, of)->Ok_0;
            &&& plan.purpose == PlanPurpose::Intrinsic(of)
            &&& record.placement == of
            &&& record.values.len() == of.count()
            &&& plan.planned.len() == of.count()
            &&& plan.planned[index].descriptor == plan::DescriptorV::Catalog(of.field(index))
            &&& hydrator::gives(plan.planned[index], row, record.values[index])
        }),
{
    let walk = hydrator::WalkV::start(plan, row);
    hydrator::law_fields_are_read_in_the_order_of_the_plan(walk, wanted(of), index);
    let behind = hydrator::read_all(walk, wanted(of))->Ok_0.1;
    hydrator::law_walks_are_finished_behind_the_last_field(behind);
}

/// A plan of another purpose gives no snapshot.
pub proof fn law_snapshots_need_their_own_plan(
    plan: plan::PlanV,
    row: plan::RowV,
    of: InfoPlacement,
)
    requires
        plan.purpose != PlanPurpose::Intrinsic(of),
    ensures
        snapshot_of(plan, row, of) is Err,
        snapshot_of(plan, row, of)->Err_0.kind is PlanRowMismatch,
        snapshot_of(plan, row, of)->Err_0.row == Some(row.row),
        snapshot_of(plan, row, of)->Err_0.profile == Some(plan.profile),
{
}

/// A listing gives one snapshot for each row, in their order, and fails at the
/// first row that gives none.
pub proof fn law_snapshots_follow_their_rows(
    plan: plan::PlanV,
    rows: Seq<plan::RowV>,
    of: InfoPlacement,
    index: int,
)
    requires
        0 <= index < rows.len(),
    ensures
        all_of(plan, rows, of) matches Ok(records) ==> records.len() == rows.len() && snapshot_of(
            plan,
            rows[index],
            of,
        ) == Ok::<RecordV, error::ErrorV>(records[index]),
        snapshot_of(plan, rows[index], of) is Err && (forall|i: int|
            0 <= i < index ==> snapshot_of(plan, #[trigger] rows[i], of) is Ok) ==> all_of(
            plan,
            rows,
            of,
        ) == Err::<Seq<RecordV>, error::ErrorV>(snapshot_of(plan, rows[index], of)->Err_0),
        (forall|i: int| 0 <= i < rows.len() ==> snapshot_of(plan, #[trigger] rows[i], of) is Ok)
            ==> all_of(plan, rows, of) is Ok,
    decreases rows.len(),
{
    let head = rows.drop_last();
    assert forall|i: int| 0 <= i < head.len() implies #[trigger] head[i] == rows[i] by {}
    assert(rows[rows.len() - 1] == rows.last());
    if head.len() > 0 {
        law_snapshots_follow_their_rows(plan, head, of, if index < head.len() { index } else { 0 });
    }
    if forall|i: int| 0 <= i < rows.len() ==> snapshot_of(plan, #[trigger] rows[i], of) is Ok {
        assert forall|i: int| 0 <= i < head.len() implies snapshot_of(
            plan,
            #[trigger] head[i],
            of,
        ) is Ok by {
            assert(head[i] == rows[i]);
        }
    }
    if index < head.len() {
        if forall|i: int| 0 <= i < index ==> snapshot_of(plan, #[trigger] rows[i], of) is Ok {
            assert forall|i: int| 0 <= i < index implies snapshot_of(
                plan,
                #[trigger] head[i],
                of,
            ) is Ok by {
                assert(head[i] == rows[i]);
            }
        }
    } else if forall|i: int| 0 <= i < index ==> snapshot_of(plan, #[trigger] rows[i], of) is Ok {
        assert forall|i: int| 0 <= i < head.len() implies snapshot_of(
            plan,
            #[trigger] head[i],
            of,
        ) is Ok by {
            assert(head[i] == rows[i]);
        }
        lemma_all_snapshots(plan, head, of);
    }
}

proof fn lemma_all_snapshots(plan: plan::PlanV, rows: Seq<plan::RowV>, of: InfoPlacement)
    requires
        forall|i: int| 0 <= i < rows.len() ==> snapshot_of(plan, #[trigger] rows[i], of) is Ok,
    ensures
        all_of(plan, rows, of) is Ok,
        all_of(plan, rows, of)->Ok_0.len() == rows.len(),
    decreases rows.len(),
{
    if rows.len() > 0 {
        assert(rows[rows.len() - 1] == rows.last());
        lemma_all_snapshots(plan, rows.drop_last(), of);
    }
}

/// The field that is found by a name is the first one with it, and none is
/// found only where none has it.
pub proof fn law_fields_are_found_by_name(of: InfoPlacement, name: Seq<char>, from: int)
    requires
        0 <= from,
    ensures
        named(of, name, from) matches Some(at) ==> {
            &&& from <= at < of.count()
            &&& of.field(at).spelling() == name
            &&& forall|i: int| from <= i < at ==> (#[trigger] of.field(i)).spelling() != name
        },
        named(of, name, from) is None ==> forall|i: int|
            from <= i < of.count() ==> (#[trigger] of.field(i)).spelling() != name,
    decreases of.count() - from,
{
    if from < of.count() && of.field(from).spelling() != name {
        law_fields_are_found_by_name(of, name, from + 1);
    }
}

/// A snapshot passes a test by the value of the field that the test names, and
/// passes none that names a field it does not have, or one that has no value.
/// Texts are compared as texts, flags as flags, numbers by their sign, and
/// identities as tmux spells them.
pub proof fn law_snapshots_pass_by_the_named_field(
    record: RecordV,
    predicate: model::PredicateV,
    index: int,
)
    requires
        0 <= index < record.placement.count(),
        record.placement.field(index).spelling() == predicate.field,
        forall|i: int|
            0 <= i < index ==> (#[trigger] record.placement.field(i)).spelling() != predicate.field,
    ensures
        ({
            let passes = record_passes(record, predicate);
            let test = predicate.data.scalar();
            &&& !(record.values[index] is Available) ==> !passes
            &&& record.values[index] matches Availability::Available(scalar) ==> passes
                == match scalar {
                value::ScalarV::Text(bytes) => model::bytes_pass(test, bytes),
                value::ScalarV::Ascii(bytes) => model::bytes_pass(test, bytes),
                value::ScalarV::Bool(flag) => model::bool_passes(test, flag),
                value::ScalarV::U8(number) => model::unsigned_passes(test, number as int),
                value::ScalarV::U32(number) => model::unsigned_passes(test, number as int),
                value::ScalarV::U64(number) => model::unsigned_passes(test, number as int),
                value::ScalarV::PaneProgress(number) => model::unsigned_passes(test, number as int),
                value::ScalarV::I32(number) => model::signed_passes(test, number as int),
                value::ScalarV::Timestamp(number) => model::signed_passes(test, number as int),
                value::ScalarV::SessionId(number) => model::bytes_pass(
                    test,
                    encode_utf8(seq!['$'] + decimal::decimal(number as nat)),
                ),
                value::ScalarV::WindowId(number) => model::bytes_pass(
                    test,
                    encode_utf8(seq!['@'] + decimal::decimal(number as nat)),
                ),
                value::ScalarV::PaneId(number) => model::bytes_pass(
                    test,
                    encode_utf8(seq!['%'] + decimal::decimal(number as nat)),
                ),
                value::ScalarV::PaneProgressState(state) => model::enum_passes(test, state.name()),
            }
        }),
{
    law_fields_are_found_by_name(record.placement, predicate.field, 0);
}

/// A test on a field that the object does not have is passed by none of its
/// snapshots, and is refused.
pub proof fn law_unknown_fields_pass_nothing(
    record: RecordV,
    predicate: model::PredicateV,
    data: model::DataV,
)
    requires
        forall|i: int|
            0 <= i < record.placement.count() ==> (#[trigger] record.placement.field(i)).spelling()
                != predicate.field,
    ensures
        !record_passes(record, predicate),
        checked_field(record.placement, predicate.field, data) == (
            Some(FilterExpressionErrorKind::UnknownField),
            data,
        ),
{
    law_fields_are_found_by_name(record.placement, predicate.field, 0);
}

/// A test is checked by the kind of the field that it names: texts and
/// identities as texts, flags as flags, numbers by their width and sign, and
/// progress states by their names.
pub proof fn law_fields_are_checked_by_their_kind(
    of: InfoPlacement,
    index: int,
    data: model::DataV,
)
    requires
        0 <= index < of.count(),
        forall|i: int|
            0 <= i < index ==> (#[trigger] of.field(i)).spelling() != of.field(index).spelling(),
    ensures
        ({
            let checked = checked_field(of, of.field(index).spelling(), data);
            let kind = of.field(index).decoded_by();
            &&& kind is Text || kind is Ascii || kind is SessionId || kind is WindowId || kind
                is PaneId ==> checked == model::validated_text(data)
            &&& kind is Bool ==> checked == model::validated_bool(data)
            &&& kind is U8 || kind is PaneProgress ==> checked == model::validated_integer(
                data,
                IntegerKind::U8,
            )
            &&& kind is U32 ==> checked == model::validated_integer(data, IntegerKind::U32)
            &&& kind is U64 ==> checked == model::validated_integer(data, IntegerKind::U64)
            &&& kind is I32 ==> checked == model::validated_integer(data, IntegerKind::I32)
            &&& kind is Timestamp ==> checked == model::validated_integer(data, IntegerKind::I64)
            &&& kind is PaneProgressState ==> checked == model::validated_enum(
                data,
                seq!["hidden"@, "normal"@, "error"@, "indeterminate"@, "paused"@],
            )
        }),
{
    law_fields_are_found_by_name(of, of.field(index).spelling(), 0);
}

/// A value is owed by the identity, and by every field that all supported
/// releases report and that is never read as absent.
pub proof fn law_values_are_owed(of: InfoPlacement, index: int)
    requires
        0 <= index < of.count(),
    ensures
        need(of, index) is Identity <==> index == 0,
        need(of, index) is Evidence <==> index != 0 && (of.field(index).since()
            != ReleaseFloor::V3_2a || of.field(index).when_empty() is Absent),
        wanted(of).len() == of.count(),
        wanted(of)[index].descriptor == plan::DescriptorV::Catalog(of.field(index)),
        wanted(of)[index].need == need(of, index),
{
}

/// The rendering of a snapshot lists its fields by name and in their order.
/// Texts are rendered by their length alone, and what has no value by why.
pub proof fn law_renderings_list_the_fields(record: RecordV, count: int, field: CatalogField)
    requires
        0 <= count,
    ensures
        fields_rendering(record, 0) == Seq::<char>::empty(),
        fields_rendering(record, count + 1) == fields_rendering(record, count) + (if count == 0 {
            " "@
        } else {
            ", "@
        }) + record.placement.field(count).spelling() + ": "@ + value_rendering(
            record.placement.field(count),
            record.values[count],
        ),
        value_rendering(field, Availability::Unsupported) == "Unsupported"@,
        value_rendering(field, Availability::Unproven) == "Unproven"@,
        value_rendering(field, Availability::Absent) == "Absent"@,
{
}

/// A listing's output is parsed by the fields that its plan selects, and its
/// rows give the snapshots.
pub proof fn law_output_gives_snapshots(plan: plan::PlanV, stdout: Seq<u8>, of: InfoPlacement)
    ensures
        plan::parsed(plan::selected(plan.planned), stdout) matches Err(failure) ==> snapshots_of(
            plan,
            stdout,
            of,
        ) == Err::<Seq<RecordV>, error::ErrorV>(failure),
        plan::parsed(plan::selected(plan.planned), stdout) matches Ok(rows) ==> snapshots_of(
            plan,
            stdout,
            of,
        ) == all_of(plan, rows, of),
{
}

/// The grammar of an object names its fields in their order, each by its
/// family: texts and identities as texts, flags as flags, numbers by their
/// sign, and progress states by their names.
pub proof fn law_grammars_describe_the_fields(of: InfoPlacement, target: Seq<char>, index: int)
    requires
        0 <= index < of.count(),
    ensures
        ({
            let grammar = described(of, target);
            let kind = of.field(index).decoded_by();
            &&& grammar.target == target
            &&& grammar.fields.len() == of.count()
            &&& grammar.fields[index].name == of.field(index).spelling()
            &&& grammar.fields[index].kind is Text <==> kind is Text || kind is Ascii || kind
                is SessionId || kind is WindowId || kind is PaneId
            &&& grammar.fields[index].kind is Bool <==> kind is Bool
            &&& grammar.fields[index].kind is Unsigned <==> kind is U8 || kind is U32 || kind
                is U64 || kind is PaneProgress
            &&& grammar.fields[index].kind is Signed <==> kind is I32 || kind is Timestamp
            &&& grammar.fields[index].kind is Enum <==> kind is PaneProgressState
            &&& grammar.fields[index].kind is Enum ==> grammar.fields[index].kind->Enum_0 == seq![
                "hidden"@,
                "normal"@,
                "error"@,
                "indeterminate"@,
                "paused"@,
            ]
        }),
{
}

/// Numbers are rendered in their notation, flags as words, identities as tmux
/// spells them, and texts by their length alone.
pub proof fn law_values_are_rendered_by_their_kind(
    bytes: Seq<u8>,
    flag: bool,
    number: u32,
    signed: i64,
)
    ensures
        scalar_rendering(value::ScalarV::Text(bytes)) == "TmuxText { len: "@ + decimal::decimal(
            bytes.len(),
        ) + " }"@,
        scalar_rendering(value::ScalarV::Ascii(bytes)) == scalar_rendering(
            value::ScalarV::Text(bytes),
        ),
        scalar_rendering(value::ScalarV::Bool(true)) == "true"@,
        scalar_rendering(value::ScalarV::Bool(false)) == "false"@,
        scalar_rendering(value::ScalarV::U32(number)) == decimal::signed_decimal(number as int),
        scalar_rendering(value::ScalarV::U64(number as u64)) == decimal::signed_decimal(
            number as int,
        ),
        scalar_rendering(value::ScalarV::Timestamp(signed)) == decimal::signed_decimal(
            signed as int,
        ),
        scalar_rendering(value::ScalarV::SessionId(number)) == seq!['$'] + decimal::decimal(
            number as nat,
        ),
        scalar_rendering(value::ScalarV::WindowId(number)) == seq!['@'] + decimal::decimal(
            number as nat,
        ),
        scalar_rendering(value::ScalarV::PaneId(number)) == seq!['%'] + decimal::decimal(
            number as nat,
        ),
{
}

/// A value that is always there is rendered as it is, and one that may be
/// missing as being there.
pub proof fn law_present_values_are_rendered(
    field: CatalogField,
    scalar: value::ScalarV,
    name: Seq<char>,
    record: RecordV,
)
    ensures
        field.since() is V3_2a && !(field.when_empty() is Absent) ==> value_rendering(
            field,
            Availability::Available(scalar),
        ) == scalar_rendering(scalar),
        !(field.since() is V3_2a) || field.when_empty() is Absent ==> value_rendering(
            field,
            Availability::Available(scalar),
        ) == "Available("@ + scalar_rendering(scalar) + ")"@,
        record_rendering(name, record) == name + " {"@ + fields_rendering(
            record,
            record.values.len() as int,
        ) + " }"@,
{
}

/// The value of a field stands at the field's place in a snapshot.
pub proof fn law_values_stand_at_their_place(record: RecordV, index: int)
    requires
        0 <= index < record.placement.count(),
    ensures
        record.at(record.placement.field(index)) == record.values[index],
{
    crate::formats::catalog::law_snapshot_fields_have_one_place(record.placement, index);
}

/// A test that a handle builds on a text field is passed by a snapshot exactly
/// where the text of that field equals, starts with, ends with or contains the
/// value, as the handle was asked. A text that only contains the value does not
/// start with it.
pub proof fn law_text_fields_are_tested_by_their_text(
    record: RecordV,
    index: int,
    target: Option<Seq<char>>,
    value: Seq<char>,
    text: Seq<char>,
)
    requires
        0 <= index < record.placement.count(),
        forall|i: int|
            0 <= i < index ==> (#[trigger] record.placement.field(i)).spelling()
                != record.placement.field(index).spelling(),
        record.values[index] == Availability::Available(value::ScalarV::Text(encode_utf8(text))),
    ensures
        ({
            let passes = |operator: TextOperator|
                record_passes(
                    record,
                    model::PredicateV {
                        target,
                        field: record.placement.field(index).spelling(),
                        data: model::DataV::Text(
                            model::TextV { operator, values: seq![value], regex: None },
                        ),
                    },
                );
            &&& passes(TextOperator::Eq) <==> text == value
            &&& passes(TextOperator::StartsWith) <==> value.len() <= text.len() && text.take(
                value.len() as int,
            ) == value
            &&& passes(TextOperator::EndsWith) <==> value.len() <= text.len() && text.skip(
                text.len() - value.len(),
            ) == value
            &&& passes(TextOperator::Contains) <==> exists|at: int|
                0 <= at <= text.len() - value.len() && #[trigger] text.skip(at).take(
                    value.len() as int,
                ) == value
        }),
{
    let field = record.placement.field(index).spelling();
    let predicate = |operator: TextOperator|
        model::PredicateV {
            target,
            field,
            data: model::DataV::Text(model::TextV { operator, values: seq![value], regex: None }),
        };
    law_snapshots_pass_by_the_named_field(record, predicate(TextOperator::Eq), index);
    law_snapshots_pass_by_the_named_field(record, predicate(TextOperator::StartsWith), index);
    law_snapshots_pass_by_the_named_field(record, predicate(TextOperator::EndsWith), index);
    law_snapshots_pass_by_the_named_field(record, predicate(TextOperator::Contains), index);
    laws::law_text_tests_compare_characters(value, text);
}

} // verus!
