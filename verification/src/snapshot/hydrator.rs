//! The walk over a plan and one of its rows.

use vstd::prelude::*;

use crate::formats::catalog::DecoderKind;
use crate::formats::catalog::EmptyPolicy;
use crate::formats::error;
use crate::formats::error::FormatCodecError;
use crate::formats::error::FormatCodecErrorKind;
use crate::formats::error::FormatCodecPhase;
use crate::formats::plan;
use crate::formats::plan::FormatDescriptor;
use crate::formats::plan::FormatPlan;
use crate::formats::plan::ParsedRow;
use crate::formats::plan::ParsedSlot;
use crate::formats::plan::PlanFieldState;
use crate::snapshot::value;
use crate::snapshot::value::decode_scalar;
use crate::snapshot::value::Availability;
use crate::snapshot::value::FieldScalar;
use crate::text::TmuxText;

verus! {

/// Selected slot or retained unavailability for one planned field.
pub enum PlannedSlot<'row> {
    Unsupported,
    Unproven,
    Selected(&'row ParsedSlot),
}

/// A planned field of a row, in contracts.
#[verifier::ext_equal]
pub ghost enum PlannedSlotV {
    Unsupported,
    Unproven,
    Selected(plan::SlotV),
}

impl<'row> PlannedSlot<'row> {
    /// The planned field in contracts.
    pub open spec fn view(&self) -> PlannedSlotV {
        match self {
            PlannedSlot::Unsupported => PlannedSlotV::Unsupported,
            PlannedSlot::Unproven => PlannedSlotV::Unproven,
            PlannedSlot::Selected(slot) => PlannedSlotV::Selected(slot@),
        }
    }
}

/// Where a walk stands: the next planned field and the next slot.
#[verifier::ext_equal]
pub ghost struct WalkV {
    pub plan: plan::PlanV,
    pub row: plan::RowV,
    pub planned: int,
    pub slot: int,
}

impl WalkV {
    /// The walk before its first field.
    pub open spec fn start(plan: plan::PlanV, row: plan::RowV) -> WalkV {
        WalkV { plan, row, planned: 0, slot: 0 }
    }

    /// Where the next slot starts, if there is one.
    pub open spec fn next_offset(self) -> Option<int> {
        if self.slot < self.row.slots.len() {
            Some(self.row.slots[self.slot].start)
        } else {
            None
        }
    }

    /// What the next planned field holds, which has to be the expected one, and
    /// how many slots it takes.
    pub open spec fn next(self, expected: plan::DescriptorV) -> Result<
        (PlannedSlotV, int),
        error::ErrorV,
    > {
        let name = Some(expected.name());
        if self.planned >= self.plan.planned.len() {
            Err(error::mismatch(self.row.row, Some(self.slot), name, None))
        } else {
            let planned = self.plan.planned[self.planned];
            if planned.descriptor != expected {
                Err(error::mismatch(self.row.row, Some(self.slot), name, self.next_offset()))
            } else {
                match planned.state {
                    PlanFieldState::Unsupported => Ok((PlannedSlotV::Unsupported, 0)),
                    PlanFieldState::Unproven => Ok((PlannedSlotV::Unproven, 0)),
                    PlanFieldState::Selected { slot } => if self.slot >= self.row.slots.len() {
                        Err(error::mismatch(self.row.row, Some(self.slot), name, None))
                    } else {
                        let actual = self.row.slots[self.slot];
                        if slot != self.slot || actual.descriptor != expected {
                            Err(
                                error::mismatch(
                                    self.row.row,
                                    Some(actual.field),
                                    name,
                                    Some(actual.start),
                                ),
                            )
                        } else {
                            Ok((PlannedSlotV::Selected(actual), 1))
                        }
                    },
                }
            }
        }
    }

    /// The walk behind a field that took some slots.
    pub open spec fn behind(self, slots: int) -> WalkV {
        WalkV { planned: self.planned + 1, slot: self.slot + slots, ..self }
    }

    /// The walk once its next field was asked for. One that was refused is left
    /// behind, and its slot is not.
    pub open spec fn past(self, expected: plan::DescriptorV) -> WalkV {
        match self.next(expected) {
            Ok((_, slots)) => self.behind(slots),
            Err(_) => if self.planned < self.plan.planned.len() {
                self.behind(0)
            } else {
                self
            },
        }
    }

    /// Why the walk is not at the end of its plan and of its row, if it is not.
    pub open spec fn unfinished(self) -> Option<error::ErrorV> {
        if self.planned < self.plan.planned.len() {
            Some(
                error::mismatch(
                    self.row.row,
                    Some(self.slot),
                    Some(self.plan.planned[self.planned].descriptor.name()),
                    None,
                ),
            )
        } else if self.slot < self.row.slots.len() {
            let actual = self.row.slots[self.slot];
            Some(
                error::mismatch(
                    self.row.row,
                    Some(actual.field),
                    Some(actual.descriptor.name()),
                    Some(actual.start),
                ),
            )
        } else {
            None
        }
    }

    /// The evidence and value of the next planned field, and how many slots it
    /// takes.
    pub open spec fn read(self, expected: plan::DescriptorV) -> Result<
        (Availability<value::ScalarV>, int),
        error::ErrorV,
    > {
        match self.next(expected) {
            Err(failure) => Err(failure),
            Ok((PlannedSlotV::Unsupported, slots)) => Ok((Availability::Unsupported, slots)),
            Ok((PlannedSlotV::Unproven, slots)) => Ok((Availability::Unproven, slots)),
            Ok((PlannedSlotV::Selected(slot), slots)) => if slot.bytes.len() == 0
                && expected.empty_policy() is Absent {
                Ok((Availability::Absent, slots))
            } else if slot.bytes.len() == 0 && expected.empty_policy() is Required {
                Err(typed_error(FormatCodecErrorKind::RequiredFieldEmpty, slot))
            } else {
                match value::decoded(expected.decoder(), slot.bytes) {
                    Some(scalar) => Ok((Availability::Available(scalar), slots)),
                    None => Err(typed_error(refusal(expected.decoder()), slot)),
                }
            },
        }
    }
}

/// The reason that a decoder refuses bytes with.
pub open spec fn refusal(kind: DecoderKind) -> FormatCodecErrorKind {
    match kind {
        DecoderKind::Ascii => FormatCodecErrorKind::NonAscii,
        _ => FormatCodecErrorKind::InvalidValue,
    }
}

/// The error of one slot.
pub open spec fn typed_error(kind: FormatCodecErrorKind, slot: plan::SlotV) -> error::ErrorV {
    error::ErrorV {
        kind,
        phase: FormatCodecPhase::Decode,
        row: Some(slot.row),
        field: Some(slot.field),
        field_name: Some(slot.descriptor.name()),
        expected: Some(slot.descriptor.decoder()),
        offset: Some(slot.start),
        profile: None,
    }
}

/// Report one slot.
pub fn slot_error(kind: FormatCodecErrorKind, slot: &ParsedSlot) -> (failure: FormatCodecError)
    ensures
        failure@ == typed_error(kind, slot@),
{
    let descriptor = slot.descriptor();
    FormatCodecError::typed(
        kind,
        slot.row(),
        slot.field(),
        descriptor.name(),
        descriptor.decoder(),
        slot.raw_start(),
    )
}

/// Read a slot as ASCII.
///
/// # Errors
///
/// [`FormatCodecErrorKind::NonAscii`] for a byte that is not ASCII.
pub fn decode_ascii(slot: &ParsedSlot) -> (text: Result<TmuxText, FormatCodecError>)
    ensures
        match text {
            Ok(text) => value::is_ascii(slot@.bytes) && text@ == slot@.bytes,
            Err(failure) => !value::is_ascii(slot@.bytes) && failure@ == typed_error(
                FormatCodecErrorKind::NonAscii,
                slot@,
            ),
        },
{
    match value::decode_ascii(slot.as_bytes()) {
        Some(text) => Ok(text),
        None => Err(slot_error(FormatCodecErrorKind::NonAscii, slot)),
    }
}

/// Read a slot as text, whatever its bytes are.
pub fn decode_text(slot: &ParsedSlot) -> (text: TmuxText)
    ensures
        text@ == slot@.bytes,
{
    value::decode_text(slot.as_bytes())
}

/// Single-pass association between a plan and one parsed row.
pub struct RowHydrator<'plan, 'row> {
    plan: &'plan FormatPlan,
    row: &'row ParsedRow,
    planned_index: usize,
    slot_index: usize,
}

impl<'plan, 'row> RowHydrator<'plan, 'row> {
    /// The walk in contracts.
    pub closed spec fn view(&self) -> WalkV {
        WalkV {
            plan: self.plan@,
            row: self.row@,
            planned: self.planned_index as int,
            slot: self.slot_index as int,
        }
    }

    /// Whether the walk stands inside its plan and its row.
    pub open spec fn inside(&self) -> bool {
        0 <= self@.planned <= self@.plan.planned.len() && 0 <= self@.slot <= self@.row.slots.len()
    }

    /// Stand before the first field.
    pub fn new(plan: &'plan FormatPlan, row: &'row ParsedRow) -> (hydrator: Self)
        ensures
            hydrator@ == WalkV::start(plan@, row@),
            hydrator.inside(),
    {
        RowHydrator { plan, row, planned_index: 0, slot_index: 0 }
    }

    /// The row's number.
    pub fn row(&self) -> (row: usize)
        ensures
            row == self@.row.row,
    {
        self.row.row()
    }

    /// The number of the next slot.
    pub fn slot_index(&self) -> (slot: usize)
        ensures
            slot == self@.slot,
    {
        self.slot_index
    }

    /// Take the next planned field, which has to be the expected one.
    ///
    /// # Errors
    ///
    /// [`FormatCodecErrorKind::PlanRowMismatch`] where the plan or the row has
    /// another field there, or none.
    pub fn next(&mut self, expected: &FormatDescriptor) -> (taken: Result<
        PlannedSlot<'row>,
        FormatCodecError,
    >)
        requires
            old(self).inside(),
        ensures
            match old(self)@.next(expected@) {
                Ok((slot, _)) => taken is Ok && taken->Ok_0@ == slot,
                Err(failure) => taken is Err && taken->Err_0@ == failure,
            },
            final(self)@ == old(self)@.past(expected@),
            final(self).inside(),
    {
        let planned = self.plan.planned();
        let ghost walk = self@;
        if self.planned_index >= planned.len() {
            return Err(
                FormatCodecError::row_mismatch(
                    self.row.row(),
                    Some(self.slot_index),
                    Some(expected.name()),
                    None,
                ),
            );
        }
        let field = planned[self.planned_index];
        assert(plan::planned_views(planned@)[self.planned_index as int] == field@);
        self.planned_index = self.planned_index + 1;
        if !field.descriptor.same(expected) {
            let offset = match self.row.slot(self.slot_index) {
                Some(slot) => Some(slot.raw_start()),
                None => None,
            };
            return Err(
                FormatCodecError::row_mismatch(
                    self.row.row(),
                    Some(self.slot_index),
                    Some(expected.name()),
                    offset,
                ),
            );
        }
        match field.state {
            PlanFieldState::Unsupported => Ok(PlannedSlot::Unsupported),
            PlanFieldState::Unproven => Ok(PlannedSlot::Unproven),
            PlanFieldState::Selected { slot } => {
                proof {
                    plan::lemma_slots_fit(*self.row);
                }
                let actual = match self.row.slot(self.slot_index) {
                    Some(actual) => actual,
                    None => return Err(
                        FormatCodecError::row_mismatch(
                            self.row.row(),
                            Some(self.slot_index),
                            Some(field.descriptor.name()),
                            None,
                        ),
                    ),
                };
                if slot != self.slot_index || !actual.descriptor().same(&field.descriptor) {
                    return Err(
                        FormatCodecError::row_mismatch(
                            self.row.row(),
                            Some(actual.field()),
                            Some(field.descriptor.name()),
                            Some(actual.raw_start()),
                        ),
                    );
                }
                self.slot_index = self.slot_index + 1;
                Ok(PlannedSlot::Selected(actual))
            },
        }
    }

    /// Check that the plan and the row are at their end.
    ///
    /// # Errors
    ///
    /// [`FormatCodecErrorKind::PlanRowMismatch`] for the first field that is
    /// left.
    pub fn finish(&self) -> (result: Result<(), FormatCodecError>)
        requires
            self.inside(),
        ensures
            match self@.unfinished() {
                None => result is Ok,
                Some(failure) => result is Err && result->Err_0@ == failure,
            },
    {
        let planned = self.plan.planned();
        if self.planned_index < planned.len() {
            let field = planned[self.planned_index];
            assert(plan::planned_views(planned@)[self.planned_index as int] == field@);
            return Err(
                FormatCodecError::row_mismatch(
                    self.row.row(),
                    Some(self.slot_index),
                    Some(field.descriptor.name()),
                    None,
                ),
            );
        }
        match self.row.slot(self.slot_index) {
            Some(actual) => Err(
                FormatCodecError::row_mismatch(
                    self.row.row(),
                    Some(actual.field()),
                    Some(actual.descriptor().name()),
                    Some(actual.raw_start()),
                ),
            ),
            None => Ok(()),
        }
    }

    /// Decode the next planned field, which has to be the expected one.
    ///
    /// # Errors
    ///
    /// The reasons of [`RowHydrator::next`],
    /// [`FormatCodecErrorKind::RequiredFieldEmpty`] for a field that is never
    /// empty, and [`FormatCodecErrorKind::InvalidValue`] or
    /// [`FormatCodecErrorKind::NonAscii`] for bytes that its decoder refuses.
    pub fn decode(&mut self, expected: &FormatDescriptor) -> (read: Result<
        Availability<FieldScalar>,
        FormatCodecError,
    >)
        requires
            old(self).inside(),
        ensures
            match old(self)@.read(expected@) {
                Ok((found, _)) => read is Ok && value::value_view(read->Ok_0) == found,
                Err(failure) => read is Err && read->Err_0@ == failure,
            },
            final(self)@ == old(self)@.past(expected@),
            final(self).inside(),
    {
        let slot = match self.next(expected) {
            Ok(PlannedSlot::Unsupported) => return Ok(Availability::Unsupported),
            Ok(PlannedSlot::Unproven) => return Ok(Availability::Unproven),
            Ok(PlannedSlot::Selected(slot)) => slot,
            Err(failure) => return Err(failure),
        };
        if slot.as_bytes().len() == 0 {
            match expected.empty_policy() {
                EmptyPolicy::Absent => return Ok(Availability::Absent),
                EmptyPolicy::Required => return Err(
                    slot_error(FormatCodecErrorKind::RequiredFieldEmpty, slot),
                ),
                EmptyPolicy::Available => {},
            }
        }
        match decode_scalar(expected.decoder(), slot.as_bytes()) {
            Some(scalar) => Ok(Availability::Available(scalar)),
            None => {
                let kind = match expected.decoder() {
                    DecoderKind::Ascii => FormatCodecErrorKind::NonAscii,
                    _ => FormatCodecErrorKind::InvalidValue,
                };
                Err(slot_error(kind, slot))
            },
        }
    }
}

/// What a field owes.
#[derive(Clone, Copy, Debug, PartialEq, Eq, Structural)]
pub enum Need {
    /// A value, since the field identifies its object.
    Identity,
    /// A value, since every supported release reports the field.
    Value,
    /// The evidence that there is.
    Evidence,
}

/// A field to read and what it owes.
#[derive(Clone, Copy, Debug)]
pub struct WantedField {
    pub descriptor: FormatDescriptor,
    pub need: Need,
}

/// A field to read, in contracts.
#[verifier::ext_equal]
pub ghost struct WantedV {
    pub descriptor: plan::DescriptorV,
    pub need: Need,
}

impl WantedField {
    /// The field in contracts.
    pub open spec fn view(&self) -> WantedV {
        WantedV { descriptor: self.descriptor@, need: self.need }
    }
}

/// The views of a list of fields to read.
pub open spec fn wanted_views(wanted: Seq<WantedField>) -> Seq<WantedV> {
    wanted.map_values(|field: WantedField| field@)
}

/// Why evidence does not give what a field owes, if it does not. The walk
/// stands behind the field.
pub open spec fn unmet(
    walk: WalkV,
    wanted: WantedV,
    found: Availability<value::ScalarV>,
) -> Option<error::ErrorV> {
    if found is Available || wanted.need is Evidence {
        None
    } else {
        Some(
            error::mismatch(
                walk.row.row,
                Some(
                    if wanted.need is Identity {
                        0
                    } else {
                        walk.slot
                    },
                ),
                Some(wanted.descriptor.name()),
                None,
            ),
        )
    }
}

/// The evidence and values of fields that stand one behind the other, and the
/// walk behind them.
pub open spec fn read_all(walk: WalkV, wanted: Seq<WantedV>) -> Result<
    (Seq<Availability<value::ScalarV>>, WalkV),
    error::ErrorV,
>
    decreases wanted.len(),
{
    if wanted.len() == 0 {
        Ok((Seq::empty(), walk))
    } else {
        match read_all(walk, wanted.drop_last()) {
            Err(failure) => Err(failure),
            Ok((earlier, here)) => match here.read(wanted.last().descriptor) {
                Err(failure) => Err(failure),
                Ok((found, slots)) => match unmet(here.behind(slots), wanted.last(), found) {
                    Some(failure) => Err(failure),
                    None => Ok((earlier.push(found), here.behind(slots))),
                },
            },
        }
    }
}

/// The walk once fields that stand one behind the other were asked for: behind
/// the last one, or behind the first one that failed.
pub open spec fn stopped(walk: WalkV, wanted: Seq<WantedV>) -> WalkV
    decreases wanted.len(),
{
    if wanted.len() == 0 {
        walk
    } else {
        match read_all(walk, wanted.drop_last()) {
            Err(_) => stopped(walk, wanted.drop_last()),
            Ok((_, here)) => here.past(wanted.last().descriptor),
        }
    }
}

/// An error among the first fields is the error of all of them, and stops the
/// walk.
proof fn lemma_read_fails(
    walk: WalkV,
    wanted: Seq<WantedV>,
    length: int,
    failure: error::ErrorV,
)
    requires
        0 <= length <= wanted.len(),
        read_all(walk, wanted.take(length)) == Err::<
            (Seq<Availability<value::ScalarV>>, WalkV),
            error::ErrorV,
        >(failure),
    ensures
        read_all(walk, wanted) == Err::<
            (Seq<Availability<value::ScalarV>>, WalkV),
            error::ErrorV,
        >(failure),
        stopped(walk, wanted) == stopped(walk, wanted.take(length)),
    decreases wanted.len() - length,
{
    if length < wanted.len() {
        assert(wanted.take(length + 1).drop_last() =~= wanted.take(length));
        lemma_read_fails(walk, wanted, length + 1, failure);
    } else {
        assert(wanted.take(length) =~= wanted);
    }
}

/// What is read has as many values as fields, each of its field's kind, and a
/// value wherever one is owed.
pub proof fn lemma_read_shape(walk: WalkV, wanted: Seq<WantedV>)
    requires
        read_all(walk, wanted) is Ok,
    ensures
        read_all(walk, wanted)->Ok_0.0.len() == wanted.len(),
        forall|i: int|
            0 <= i < wanted.len() ==> match #[trigger] read_all(walk, wanted)->Ok_0.0[i] {
                Availability::Available(scalar) => scalar.kind() == wanted[i].descriptor.decoder(),
                _ => wanted[i].need is Evidence,
            },
    decreases wanted.len(),
{
    if wanted.len() > 0 {
        let head = wanted.drop_last();
        lemma_read_shape(walk, head);
        let (earlier, here) = read_all(walk, head)->Ok_0;
        let values = read_all(walk, wanted)->Ok_0.0;
        assert forall|i: int| 0 <= i < wanted.len() implies match #[trigger] values[i] {
            Availability::Available(scalar) => scalar.kind() == wanted[i].descriptor.decoder(),
            _ => wanted[i].need is Evidence,
        } by {
            if i < head.len() {
                assert(values[i] == earlier[i]);
                assert(head[i] == wanted[i]);
            } else {
                assert(wanted.last() == wanted[i]);
            }
        }
    }
}

impl<'plan, 'row> RowHydrator<'plan, 'row> {
    /// Read fields that stand one behind the other.
    ///
    /// # Errors
    ///
    /// The reasons of [`RowHydrator::decode`], in the order of the fields, and
    /// [`FormatCodecErrorKind::PlanRowMismatch`] for a field that owes a value
    /// and has none.
    pub fn decode_all(&mut self, wanted: &Vec<WantedField>) -> (read: Result<
        Vec<Availability<FieldScalar>>,
        FormatCodecError,
    >)
        requires
            old(self).inside(),
        ensures
            match read_all(old(self)@, wanted_views(wanted@)) {
                Ok((found, walk)) => read is Ok && value::value_views(read->Ok_0@) == found
                    && final(self)@ == walk,
                Err(failure) => read is Err && read->Err_0@ == failure,
            },
            final(self)@ == stopped(old(self)@, wanted_views(wanted@)),
            final(self).inside(),
    {
        let ghost start = self@;
        let ghost views = wanted_views(wanted@);
        let mut values: Vec<Availability<FieldScalar>> = Vec::new();
        let mut index: usize = 0;
        assert(value::value_views(values@) =~= Seq::empty());
        assert(views.take(0) =~= Seq::empty());
        while index < wanted.len()
            invariant
                index <= wanted@.len(),
                views == wanted_views(wanted@),
                start == old(self)@,
                self.inside(),
                self@ == stopped(start, views.take(index as int)),
                read_all(start, views.take(index as int)) == Ok::<
                    (Seq<Availability<value::ScalarV>>, WalkV),
                    error::ErrorV,
                >((value::value_views(values@), self@)),
            decreases wanted@.len() - index,
        {
            let field = wanted[index];
            let ghost here = self@;
            let ghost earlier = value::value_views(values@);
            proof {
                let longer = views.take(index + 1);
                assert(longer.drop_last() =~= views.take(index as int));
                assert(longer.last() == field@);
            }
            let found = match self.decode(&field.descriptor) {
                Ok(found) => found,
                Err(failure) => {
                    proof {
                        lemma_read_fails(start, views, index + 1, failure@);
                    }
                    return Err(failure);
                },
            };
            let slot: Option<usize> = match (found.is_available(), field.need) {
                (true, _) => None,
                (false, Need::Evidence) => None,
                (false, Need::Identity) => Some(0),
                (false, Need::Value) => Some(self.slot_index),
            };
            if let Some(slot) = slot {
                let failure = FormatCodecError::row_mismatch(
                    self.row.row(),
                    Some(slot),
                    Some(field.descriptor.name()),
                    None,
                );
                proof {
                    lemma_read_fails(start, views, index + 1, failure@);
                }
                return Err(failure);
            }
            let ghost seen = value::value_view(found);
            values.push(found);
            assert(value::value_views(values@) =~= earlier.push(seen));
            index += 1;
        }
        assert(views.take(views.len() as int) =~= views);
        Ok(values)
    }
}

/// What walking over every planned field of a row answers, from a field on.
pub open spec fn walked(walk: WalkV) -> Option<error::ErrorV>
    decreases walk.plan.planned.len() - walk.planned,
{
    if walk.planned < 0 || walk.planned >= walk.plan.planned.len() {
        walk.unfinished()
    } else {
        match walk.read(walk.plan.planned[walk.planned].descriptor) {
            Err(failure) => Some(failure),
            Ok((_, slots)) => walked(walk.behind(slots)),
        }
    }
}

/// Check a row against its plan, field by field.
///
/// # Errors
///
/// The first field that does not belong to the plan or does not decode.
pub fn validate_planned_row(plan: &FormatPlan, row: &ParsedRow) -> (result: Result<
    (),
    FormatCodecError,
>)
    ensures
        match walked(WalkV::start(plan@, row@)) {
            None => result is Ok,
            Some(failure) => result is Err && result->Err_0@ == failure,
        },
{
    let mut hydrator = RowHydrator::new(plan, row);
    let ghost expected = walked(hydrator@);
    let planned = plan.planned();
    let mut index: usize = 0;
    while index < planned.len()
        invariant
            index <= planned@.len(),
            plan::planned_views(planned@) == plan@.planned,
            hydrator.inside(),
            hydrator@.plan == plan@,
            hydrator@.planned == index,
            expected == walked(WalkV::start(plan@, row@)),
            expected == walked(hydrator@),
        decreases planned@.len() - index,
    {
        assert(plan::planned_views(planned@)[index as int] == planned@[index as int]@);
        if let Err(failure) = hydrator.decode(&planned[index].descriptor) {
            return Err(failure);
        }
        index += 1;
    }
    hydrator.finish()
}

/// Whether a value is what a planned field gives of a row: what the plan says
/// of a field that was not asked for, and what the field's slot holds of one
/// that was. An empty slot of a field that may be empty gives nothing.
pub open spec fn gives(
    planned: plan::PlannedV,
    row: plan::RowV,
    found: Availability<value::ScalarV>,
) -> bool {
    match planned.state {
        PlanFieldState::Unsupported => found is Unsupported,
        PlanFieldState::Unproven => found is Unproven,
        PlanFieldState::Selected { slot } => {
            let bytes = row.slots[slot as int].bytes;
            &&& slot < row.slots.len()
            &&& row.slots[slot as int].descriptor == planned.descriptor
            &&& if bytes.len() == 0 && planned.descriptor.empty_policy() is Absent {
                found is Absent
            } else {
                &&& bytes.len() == 0 ==> !(planned.descriptor.empty_policy() is Required)
                &&& value::decoded(planned.descriptor.decoder(), bytes) is Some
                &&& found == Availability::Available(
                    value::decoded(planned.descriptor.decoder(), bytes)->0,
                )
            }
        },
    }
}

/// Fields that are read one behind the other are the planned fields from where
/// the walk stood, each gives its value, and the walk stands behind the last.
pub proof fn law_fields_are_read_in_the_order_of_the_plan(
    walk: WalkV,
    wanted: Seq<WantedV>,
    index: int,
)
    requires
        0 <= walk.planned,
        0 <= walk.slot,
        0 <= index < wanted.len(),
        read_all(walk, wanted) is Ok,
    ensures
        ({
            let (found, behind) = read_all(walk, wanted)->Ok_0;
            let at = walk.planned + index;
            &&& found.len() == wanted.len()
            &&& behind.planned == walk.planned + wanted.len()
            &&& behind.plan == walk.plan
            &&& behind.row == walk.row
            &&& at < walk.plan.planned.len()
            &&& walk.plan.planned[at].descriptor == wanted[index].descriptor
            &&& gives(walk.plan.planned[at], walk.row, found[index])
            &&& found[index] is Available || wanted[index].need is Evidence
        }),
    decreases wanted.len(),
{
    lemma_walk_advances(walk, wanted);
    let head = wanted.drop_last();
    lemma_walk_advances(walk, head);
    if index < head.len() {
        law_fields_are_read_in_the_order_of_the_plan(walk, head, index);
    }
}

/// A walk that read fields stands behind them.
pub proof fn lemma_walk_advances(walk: WalkV, wanted: Seq<WantedV>)
    requires
        read_all(walk, wanted) is Ok,
        0 <= walk.planned,
        0 <= walk.slot,
    ensures
        ({
            let (found, behind) = read_all(walk, wanted)->Ok_0;
            &&& found.len() == wanted.len()
            &&& behind.planned == walk.planned + wanted.len()
            &&& behind.plan == walk.plan
            &&& behind.row == walk.row
            &&& behind.slot >= walk.slot
        }),
    decreases wanted.len(),
{
    if wanted.len() > 0 {
        lemma_walk_advances(walk, wanted.drop_last());
    }
}

/// A field is read exactly where the plan names it next and, if it was asked
/// for, the next slot is its own and holds something that decodes. An empty
/// slot of a field that may not be empty, and one that does not decode, are
/// reported with the slot, and any other mismatch with the field.
pub proof fn law_fields_are_read_where_the_plan_names_them(
    walk: WalkV,
    expected: plan::DescriptorV,
)
    requires
        0 <= walk.planned,
        0 <= walk.slot,
    ensures
        ({
            let planned = walk.plan.planned[walk.planned];
            let slot = walk.row.slots[walk.slot];
            let named = walk.planned < walk.plan.planned.len() && planned.descriptor == expected;
            let asked = named && planned.state is Selected;
            let slotted = asked && walk.slot < walk.row.slots.len() && planned.state
                == (PlanFieldState::Selected { slot: walk.slot as usize }) && walk.slot
                <= usize::MAX && slot.descriptor == expected;
            let decoded = value::decoded(expected.decoder(), slot.bytes);
            let empty = slot.bytes.len() == 0;
            &&& !named || (asked && !slotted) ==> walk.read(expected) is Err && walk.read(
                expected,
            )->Err_0.kind is PlanRowMismatch && walk.read(expected)->Err_0.field_name == Some(
                expected.name(),
            ) && walk.read(expected)->Err_0.row == Some(walk.row.row)
            &&& named && !asked ==> walk.read(expected) is Ok && walk.read(expected)->Ok_0.1 == 0
            &&& slotted && empty && expected.empty_policy() is Absent ==> walk.read(expected)
                == Ok::<(Availability<value::ScalarV>, int), error::ErrorV>(
                (Availability::Absent, 1),
            )
            &&& slotted && empty && expected.empty_policy() is Required ==> walk.read(expected)
                is Err && walk.read(expected)->Err_0.kind is RequiredFieldEmpty && walk.read(
                expected,
            )->Err_0.offset == Some(slot.start)
            &&& slotted && (!empty || expected.empty_policy() is Available) && decoded is Some
                ==> walk.read(expected) == Ok::<(Availability<value::ScalarV>, int), error::ErrorV>(
                (Availability::Available(decoded->0), 1),
            )
            &&& slotted && (!empty || expected.empty_policy() is Available) && decoded is None
                ==> walk.read(expected) is Err && walk.read(expected)->Err_0.kind == (if expected.decoder() is Ascii {
                FormatCodecErrorKind::NonAscii
            } else {
                FormatCodecErrorKind::InvalidValue
            }) && walk.read(expected)->Err_0.offset == Some(slot.start) && walk.read(
                expected,
            )->Err_0.field == Some(slot.field) && walk.read(expected)->Err_0.row == Some(slot.row)
        }),
{
}

/// A walk is finished exactly where it stands behind the last planned field and
/// the last slot.
pub proof fn law_walks_are_finished_behind_the_last_field(walk: WalkV)
    ensures
        walk.unfinished() is None <==> walk.planned >= walk.plan.planned.len() && walk.slot
            >= walk.row.slots.len(),
        walk.unfinished() matches Some(failure) ==> failure.kind is PlanRowMismatch && failure.row
            == Some(walk.row.row),
{
}

/// A row keeps its plan exactly where every planned field can be read from it
/// in the order of the plan and nothing is left over.
pub proof fn law_rows_keep_their_plan(walk: WalkV)
    requires
        0 <= walk.planned <= walk.plan.planned.len(),
    ensures
        walked(walk) is None <==> ({
            let wanted = walk.plan.planned.skip(walk.planned).map_values(
                |planned: plan::PlannedV|
                    WantedV { descriptor: planned.descriptor, need: Need::Evidence },
            );
            read_all(walk, wanted) is Ok && read_all(walk, wanted)->Ok_0.1.unfinished() is None
        }),
    decreases walk.plan.planned.len() - walk.planned,
{
    let read = |planned: plan::PlannedV|
        WantedV { descriptor: planned.descriptor, need: Need::Evidence };
    let rest = walk.plan.planned.skip(walk.planned);
    let wanted = rest.map_values(read);
    if walk.planned < walk.plan.planned.len() {
        let descriptor = walk.plan.planned[walk.planned].descriptor;
        let first = seq![WantedV { descriptor, need: Need::Evidence }];
        let later = walk.plan.planned.skip(walk.planned + 1).map_values(read);
        assert(wanted =~= first + later);
        lemma_read_first(walk, first[0], later);
        if let Ok((_, slots)) = walk.read(descriptor) {
            law_rows_keep_their_plan(walk.behind(slots));
        }
    } else {
        assert(wanted.len() == 0);
    }
}

proof fn lemma_read_first(walk: WalkV, first: WantedV, later: Seq<WantedV>)
    requires
        first.need is Evidence,
    ensures
        walk.read(first.descriptor) is Err ==> read_all(walk, seq![first] + later) is Err,
        walk.read(first.descriptor) matches Ok((found, slots)) ==> {
            let all = read_all(walk, seq![first] + later);
            let rest = read_all(walk.behind(slots), later);
            &&& all is Ok <==> rest is Ok
            &&& all is Ok ==> all->Ok_0.1 == rest->Ok_0.1
        },
    decreases later.len(),
{
    let wanted = seq![first] + later;
    if later.len() > 0 {
        lemma_read_first(walk, first, later.drop_last());
        assert(wanted.drop_last() =~= seq![first] + later.drop_last());
        assert(wanted.last() == later.last());
    } else {
        assert(wanted.drop_last() =~= Seq::empty());
        assert(wanted.last() == first);
        reveal_with_fuel(read_all, 2);
    }
}

/// A walk that was refused a field stands behind it in the plan, at the same
/// slot, unless the plan had ended.
pub proof fn law_walks_go_on_behind_a_refused_field(
    walk: WalkV,
    wanted: Seq<WantedV>,
    last: WantedV,
)
    ensures
        walk.next(last.descriptor) is Err && walk.planned < walk.plan.planned.len() ==> walk.past(
            last.descriptor,
        ) == (WalkV { planned: walk.planned + 1, ..walk }),
        walk.next(last.descriptor) is Err && walk.planned >= walk.plan.planned.len() ==> walk.past(
            last.descriptor,
        ) == walk,
        walk.next(last.descriptor) matches Ok((_, slots)) ==> walk.past(last.descriptor) == (
        WalkV { planned: walk.planned + 1, slot: walk.slot + slots, ..walk }),
        stopped(walk, Seq::empty()) == walk,
        read_all(walk, wanted) is Err ==> stopped(walk, wanted.push(last)) == stopped(walk, wanted),
        read_all(walk, wanted) matches Ok((_, here)) ==> stopped(walk, wanted.push(last))
            == here.past(last.descriptor),
{
    assert(wanted.push(last).drop_last() =~= wanted);
}

/// A field that owes a value and has none fails: the identity as the first
/// field, and any other at the slot behind it.
pub proof fn law_owed_values_are_missed(
    walk: WalkV,
    wanted: WantedV,
    found: Availability<value::ScalarV>,
)
    ensures
        unmet(walk, wanted, found) is None <==> found is Available || wanted.need is Evidence,
        unmet(walk, wanted, found) matches Some(failure) ==> {
            &&& failure.kind is PlanRowMismatch
            &&& failure.row == Some(walk.row.row)
            &&& failure.field_name == Some(wanted.descriptor.name())
            &&& failure.field == Some(
                if wanted.need is Identity {
                    0
                } else {
                    walk.slot
                },
            )
        },
{
}

} // verus!
