//! Plans: which fields a listing asks for, and how its rows are split among
//! them.

use vstd::prelude::*;
use vstd::string::*;

use crate::formats::catalog::CatalogField;
use crate::formats::catalog::DecoderKind;
use crate::formats::catalog::EmptyPolicy;
use crate::formats::catalog::FieldOwner;
use crate::formats::catalog::InfoPlacement;
use crate::formats::catalog::ReleaseFloor;
use crate::formats::codec;
use crate::formats::codec::split_rows;
use crate::formats::codec::RawField;
use crate::formats::error;
use crate::formats::error::FormatCodecError;
use crate::formats::error::FormatCodecErrorKind;
use crate::formats::error::FormatCodecPhase;
use crate::formats::error::ListProfile;
use crate::text::str_eq;
use crate::version::ReleaseSuffix;
use crate::version::ReleaseVersion;
use crate::version::TmuxVersion;

verus! {

impl ReleaseFloor {
    /// The release, in contracts.
    pub open spec fn version(self) -> ReleaseVersion {
        match self {
            ReleaseFloor::V3_2a => ReleaseVersion {
                major: 3,
                minor: 2,
                suffix: ReleaseSuffix::Letter(97),
            },
            ReleaseFloor::V3_3 => ReleaseVersion {
                major: 3,
                minor: 3,
                suffix: ReleaseSuffix::Final,
            },
            ReleaseFloor::V3_6 => ReleaseVersion {
                major: 3,
                minor: 6,
                suffix: ReleaseSuffix::Final,
            },
            ReleaseFloor::V3_7 => ReleaseVersion {
                major: 3,
                minor: 7,
                suffix: ReleaseSuffix::Final,
            },
        }
    }

    /// The release.
    pub fn release(self) -> (release: ReleaseVersion)
        ensures
            release == self.version(),
    {
        match self {
            ReleaseFloor::V3_2a => ReleaseVersion::new(3, 2, ReleaseSuffix::Letter(97)),
            ReleaseFloor::V3_3 => ReleaseVersion::new(3, 3, ReleaseSuffix::Final),
            ReleaseFloor::V3_6 => ReleaseVersion::new(3, 6, ReleaseSuffix::Final),
            ReleaseFloor::V3_7 => ReleaseVersion::new(3, 7, ReleaseSuffix::Final),
        }
    }
}

/// A field that a listing can ask for.
#[derive(Clone, Copy, Debug)]
pub enum FormatDescriptor {
    /// A field of the catalog.
    Catalog(CatalogField),
    /// Another format variable.
    Named { name: &'static str, decoder: DecoderKind },
}

/// A field in contracts.
#[verifier::ext_equal]
pub ghost enum DescriptorV {
    Catalog(CatalogField),
    Named(Seq<char>, DecoderKind),
}

impl DescriptorV {
    /// The name of the variable.
    pub open spec fn name(self) -> Seq<char> {
        match self {
            DescriptorV::Catalog(field) => field.spelling(),
            DescriptorV::Named(name, _) => name,
        }
    }

    /// How the field is decoded.
    pub open spec fn decoder(self) -> DecoderKind {
        match self {
            DescriptorV::Catalog(field) => field.decoded_by(),
            DescriptorV::Named(_, decoder) => decoder,
        }
    }

    /// The release that first reports the field.
    pub open spec fn floor(self) -> ReleaseFloor {
        match self {
            DescriptorV::Catalog(field) => field.since(),
            DescriptorV::Named(..) => ReleaseFloor::V3_2a,
        }
    }

    /// What an empty field means.
    pub open spec fn empty_policy(self) -> EmptyPolicy {
        match self {
            DescriptorV::Catalog(field) => field.when_empty(),
            DescriptorV::Named(..) => EmptyPolicy::Available,
        }
    }
}

impl FormatDescriptor {
    /// The field in contracts.
    pub open spec fn view(&self) -> DescriptorV {
        match self {
            FormatDescriptor::Catalog(field) => DescriptorV::Catalog(*field),
            FormatDescriptor::Named { name, decoder } => DescriptorV::Named(name@, *decoder),
        }
    }

    /// The name of the variable.
    pub fn name(&self) -> (name: &'static str)
        ensures
            name@ == self@.name(),
    {
        match self {
            FormatDescriptor::Catalog(field) => field.name(),
            FormatDescriptor::Named { name, .. } => name,
        }
    }

    /// How the field is decoded.
    pub fn decoder(&self) -> (decoder: DecoderKind)
        ensures
            decoder == self@.decoder(),
    {
        match self {
            FormatDescriptor::Catalog(field) => field.decoder(),
            FormatDescriptor::Named { decoder, .. } => *decoder,
        }
    }

    /// The release that first reports the field.
    pub fn floor(&self) -> (floor: ReleaseFloor)
        ensures
            floor == self@.floor(),
    {
        match self {
            FormatDescriptor::Catalog(field) => field.floor(),
            FormatDescriptor::Named { .. } => ReleaseFloor::V3_2a,
        }
    }

    /// What an empty field means.
    pub fn empty_policy(&self) -> (policy: EmptyPolicy)
        ensures
            policy == self@.empty_policy(),
    {
        match self {
            FormatDescriptor::Catalog(field) => field.empty_policy(),
            FormatDescriptor::Named { .. } => EmptyPolicy::Available,
        }
    }

    /// Report whether two descriptors name one field.
    pub fn same(&self, other: &FormatDescriptor) -> (same: bool)
        ensures
            same == (self@ == other@),
    {
        match (self, other) {
            (FormatDescriptor::Catalog(left), FormatDescriptor::Catalog(right)) => *left == *right,
            (
                FormatDescriptor::Named { name: left, decoder: left_decoder },
                FormatDescriptor::Named { name: right, decoder: right_decoder },
            ) => str_eq(left, right) && *left_decoder == *right_decoder,
            _ => false,
        }
    }
}

/// The views of a list of fields.
pub open spec fn descriptor_views(descriptors: Seq<FormatDescriptor>) -> Seq<DescriptorV> {
    descriptors.map_values(|descriptor: FormatDescriptor| descriptor@)
}

/// Whether a listing asks for a planned field.
#[derive(Clone, Copy, Debug, PartialEq, Eq, Structural)]
pub enum PlanFieldState {
    /// The detected release predates the field.
    Unsupported,
    /// A development build proves no release that has the field.
    Unproven,
    /// The field is asked for, and stands in a slot of every row.
    Selected { slot: usize },
}

/// A field and whether the listing asks for it.
#[derive(Clone, Copy, Debug)]
pub struct PlannedField {
    pub descriptor: FormatDescriptor,
    pub state: PlanFieldState,
}

/// A planned field in contracts.
#[verifier::ext_equal]
pub ghost struct PlannedV {
    pub descriptor: DescriptorV,
    pub state: PlanFieldState,
}

impl PlannedField {
    /// The planned field in contracts.
    pub open spec fn view(&self) -> PlannedV {
        PlannedV { descriptor: self.descriptor@, state: self.state }
    }
}

/// The views of a list of planned fields.
pub open spec fn planned_views(planned: Seq<PlannedField>) -> Seq<PlannedV> {
    planned.map_values(|field: PlannedField| field@)
}

/// What a plan is made for.
#[derive(Clone, Copy, Debug, PartialEq, Eq, Structural)]
pub enum PlanPurpose {
    /// A snapshot of one object.
    Intrinsic(InfoPlacement),
    /// Chosen fields of a listing.
    Projection,
    /// Fields that belong to no listing of the catalog.
    Codec,
}

/// The fields of a listing.
pub struct FormatPlan {
    profile: ListProfile,
    purpose: PlanPurpose,
    planned: Vec<PlannedField>,
}

/// A plan in contracts.
#[verifier::ext_equal]
pub ghost struct PlanV {
    pub profile: ListProfile,
    pub purpose: PlanPurpose,
    pub planned: Seq<PlannedV>,
}

/// Whether a version reports a field.
#[derive(Clone, Copy, Debug, PartialEq, Eq, Structural)]
pub enum Standing {
    Unsupported,
    Unproven,
    Selected,
}

/// Whether a version reports a field that a release introduced. A development
/// build proves only what every supported release has.
pub open spec fn standing(version: TmuxVersion, floor: ReleaseFloor) -> Standing {
    match version {
        TmuxVersion::Release(release) => if release.before(floor.version()) {
            Standing::Unsupported
        } else {
            Standing::Selected
        },
        TmuxVersion::Development => if floor == ReleaseFloor::V3_2a {
            Standing::Selected
        } else {
            Standing::Unproven
        },
    }
}

/// Every supported version reports the fields of the first supported release,
/// and a release reports what an earlier one reports.
pub proof fn law_later_releases_report_more(
    version: TmuxVersion,
    floor: ReleaseFloor,
    earlier: ReleaseVersion,
)
    requires
        version matches TmuxVersion::Release(release) ==> !release.before(
            ReleaseFloor::V3_2a.version(),
        ),
    ensures
        standing(version, ReleaseFloor::V3_2a) is Selected,
        version matches TmuxVersion::Release(release) && earlier.before(release) && standing(
            TmuxVersion::Release(earlier),
            floor,
        ) is Selected ==> standing(version, floor) is Selected,
{
}

/// Report whether a version reports a field that a release introduced.
fn classify_field(version: &TmuxVersion, floor: ReleaseFloor) -> (found: Standing)
    ensures
        found == standing(*version, floor),
{
    match version {
        TmuxVersion::Release(release) => if release.is_before(floor.release()) {
            Standing::Unsupported
        } else {
            Standing::Selected
        },
        TmuxVersion::Development => if floor == ReleaseFloor::V3_2a {
            Standing::Selected
        } else {
            Standing::Unproven
        },
    }
}

/// How many of the fields a version reports.
pub open spec fn reported(descriptors: Seq<DescriptorV>, version: TmuxVersion) -> nat
    decreases descriptors.len(),
{
    if descriptors.len() == 0 {
        0
    } else {
        reported(descriptors.drop_last(), version) + if standing(
            version,
            descriptors.last().floor(),
        ) is Selected {
            1nat
        } else {
            0nat
        }
    }
}

/// The plan of fields: each of them with its state, and the selected ones in
/// slots that count up.
pub open spec fn planned(descriptors: Seq<DescriptorV>, version: TmuxVersion) -> Seq<PlannedV> {
    Seq::new(
        descriptors.len(),
        |i: int|
            PlannedV {
                descriptor: descriptors[i],
                state: match standing(version, descriptors[i].floor()) {
                    Standing::Unsupported => PlanFieldState::Unsupported,
                    Standing::Unproven => PlanFieldState::Unproven,
                    Standing::Selected => PlanFieldState::Selected {
                        slot: reported(descriptors.take(i), version) as usize,
                    },
                },
            },
    )
}

/// No more fields are reported than there are.
pub proof fn lemma_reported(descriptors: Seq<DescriptorV>, version: TmuxVersion)
    ensures
        reported(descriptors, version) <= descriptors.len(),
    decreases descriptors.len(),
{
    if descriptors.len() > 0 {
        lemma_reported(descriptors.drop_last(), version);
    }
}

/// Plan fields for a version.
fn plan_fields(descriptors: &Vec<FormatDescriptor>, version: &TmuxVersion) -> (fields: Vec<
    PlannedField,
>)
    ensures
        planned_views(fields@) == planned(descriptor_views(descriptors@), *version),
{
    let ghost views = descriptor_views(descriptors@);
    let mut fields: Vec<PlannedField> = Vec::new();
    let mut slot: usize = 0;
    let mut index: usize = 0;
    assert(views.take(0) =~= Seq::empty());
    while index < descriptors.len()
        invariant
            index <= descriptors@.len(),
            views == descriptor_views(descriptors@),
            fields@.len() == index,
            slot <= index,
            slot == reported(views.take(index as int), *version),
            forall|i: int|
                0 <= i < index ==> (#[trigger] fields@[i])@ == planned(views, *version)[i],
        decreases descriptors@.len() - index,
    {
        let descriptor = descriptors[index];
        proof {
            let longer = views.take(index + 1);
            assert(longer.drop_last() =~= views.take(index as int));
            assert(longer.last() == descriptor@);
            assert(views[index as int] == descriptor@);
        }
        let state = match classify_field(version, descriptor.floor()) {
            Standing::Unsupported => PlanFieldState::Unsupported,
            Standing::Unproven => PlanFieldState::Unproven,
            Standing::Selected => {
                let taken = slot;
                slot = slot + 1;
                PlanFieldState::Selected { slot: taken }
            },
        };
        fields.push(PlannedField { descriptor, state });
        index += 1;
    }
    assert(planned_views(fields@) =~= planned(views, *version));
    fields
}

/// The object that a listing lists.
pub open spec fn placement(profile: ListProfile) -> InfoPlacement {
    match profile {
        ListProfile::Sessions => InfoPlacement::SessionInfo,
        ListProfile::Windows => InfoPlacement::WindowInfo,
        ListProfile::Panes => InfoPlacement::PaneInfo,
        ListProfile::Clients => InfoPlacement::ClientInfo,
    }
}

/// The object that a listing lists.
pub fn listed_placement(profile: ListProfile) -> (found: InfoPlacement)
    ensures
        found == placement(profile),
{
    match profile {
        ListProfile::Sessions => InfoPlacement::SessionInfo,
        ListProfile::Windows => InfoPlacement::WindowInfo,
        ListProfile::Panes => InfoPlacement::PaneInfo,
        ListProfile::Clients => InfoPlacement::ClientInfo,
    }
}

/// The fields of a snapshot, in order.
pub open spec fn info_descriptors(of: InfoPlacement) -> Seq<DescriptorV> {
    Seq::new(of.count(), |i: int| DescriptorV::Catalog(of.field(i)))
}

/// The fields of a snapshot, in order.
pub fn list_info_descriptors(of: InfoPlacement) -> (descriptors: Vec<FormatDescriptor>)
    ensures
        descriptor_views(descriptors@) == info_descriptors(of),
{
    let count = of.field_count();
    let mut descriptors: Vec<FormatDescriptor> = Vec::new();
    let mut index: usize = 0;
    while index < count
        invariant
            index <= count,
            count == of.count(),
            descriptors@.len() == index,
            forall|i: int|
                0 <= i < index ==> (#[trigger] descriptors@[i])@ == DescriptorV::Catalog(
                    of.field(i),
                ),
        decreases count - index,
    {
        descriptors.push(FormatDescriptor::Catalog(of.field_at(index)));
        index += 1;
    }
    assert(descriptor_views(descriptors@) =~= info_descriptors(of));
    descriptors
}

/// The fields of a snapshot behind its identity.
pub fn list_info_supplements(of: InfoPlacement) -> (descriptors: Vec<FormatDescriptor>)
    ensures
        descriptor_views(descriptors@) == info_descriptors(of).skip(1),
{
    let mut descriptors = list_info_descriptors(of);
    let ghost views = descriptor_views(descriptors@);
    descriptors.remove(0);
    assert(descriptor_views(descriptors@) =~= views.skip(1));
    descriptors
}

/// Whether a listing reports a field: the fields of an object and of what
/// holds it.
pub open spec fn admitted(profile: ListProfile, descriptor: DescriptorV) -> bool {
    match descriptor {
        DescriptorV::Named(..) => false,
        DescriptorV::Catalog(field) => match field.describes() {
            FieldOwner::Shared | FieldOwner::Session => true,
            FieldOwner::Window => profile is Windows || profile is Panes,
            FieldOwner::Pane => profile is Panes,
            FieldOwner::Client => profile is Clients,
        },
    }
}

/// Report whether a listing reports a field.
fn admits(profile: ListProfile, descriptor: &FormatDescriptor) -> (found: bool)
    ensures
        found == admitted(profile, descriptor@),
{
    match descriptor {
        FormatDescriptor::Named { .. } => false,
        FormatDescriptor::Catalog(field) => match field.owner() {
            FieldOwner::Shared | FieldOwner::Session => true,
            FieldOwner::Window => matches!(profile, ListProfile::Windows | ListProfile::Panes),
            FieldOwner::Pane => matches!(profile, ListProfile::Panes),
            FieldOwner::Client => matches!(profile, ListProfile::Clients),
        },
    }
}

/// The first of the fields that a listing does not report.
pub open spec fn first_refused(profile: ListProfile, requested: Seq<DescriptorV>) -> Option<int>
    decreases requested.len(),
{
    if requested.len() == 0 {
        None
    } else {
        let earlier = first_refused(profile, requested.drop_last());
        if earlier is Some {
            earlier
        } else if admitted(profile, requested.last()) {
            None
        } else {
            Some(requested.len() - 1)
        }
    }
}

/// A field refused among the first ones is the first one refused among all.
proof fn lemma_first_refused(profile: ListProfile, requested: Seq<DescriptorV>, length: int)
    requires
        0 <= length <= requested.len(),
        first_refused(profile, requested.take(length)) is Some,
    ensures
        first_refused(profile, requested) == first_refused(profile, requested.take(length)),
    decreases requested.len() - length,
{
    if length < requested.len() {
        assert(requested.take(length + 1).drop_last() =~= requested.take(length));
        lemma_first_refused(profile, requested, length + 1);
    } else {
        assert(requested.take(length) =~= requested);
    }
}

/// The refusal of a field that a listing does not report. The identity stands
/// in front of the fields that were asked for.
pub open spec fn scope_error(profile: ListProfile, requested: Seq<DescriptorV>, index: int) -> error::ErrorV {
    error::ErrorV {
        kind: FormatCodecErrorKind::OutOfScope,
        phase: FormatCodecPhase::Plan,
        row: None,
        field: Some(index + 1),
        field_name: Some(requested[index].name()),
        expected: None,
        offset: None,
        profile: Some(profile),
    }
}

/// The plan of chosen fields: the identity of what is listed, and then the
/// fields.
pub open spec fn projected(
    profile: ListProfile,
    version: TmuxVersion,
    requested: Seq<DescriptorV>,
) -> Result<PlanV, error::ErrorV> {
    match first_refused(profile, requested) {
        Some(index) => Err(scope_error(profile, requested, index)),
        None => Ok(
            PlanV {
                profile,
                purpose: PlanPurpose::Projection,
                planned: planned(
                    seq![DescriptorV::Catalog(placement(profile).field(0))] + requested,
                    version,
                ),
            },
        ),
    }
}

/// The fields that a plan asks for, in order.
pub open spec fn selected(fields: Seq<PlannedV>) -> Seq<DescriptorV>
    decreases fields.len(),
{
    if fields.len() == 0 {
        Seq::empty()
    } else {
        let earlier = selected(fields.drop_last());
        match fields.last().state {
            PlanFieldState::Selected { .. } => earlier.push(fields.last().descriptor),
            _ => earlier,
        }
    }
}

/// The format that asks for fields: each of them quoted, and ended by a percent
/// sign.
pub open spec fn template_of(descriptors: Seq<DescriptorV>) -> Seq<char>
    decreases descriptors.len(),
{
    if descriptors.len() == 0 {
        Seq::empty()
    } else {
        template_of(descriptors.drop_last()) + "#{q:"@ + descriptors.last().name() + "}%"@
    }
}

/// A field of a row that was read.
pub struct ParsedSlot {
    descriptor: FormatDescriptor,
    row: usize,
    field: usize,
    raw_start: usize,
    bytes: Vec<u8>,
}

/// A field of a row, in contracts.
#[verifier::ext_equal]
pub ghost struct SlotV {
    pub descriptor: DescriptorV,
    pub row: int,
    pub field: int,
    pub start: int,
    pub bytes: Seq<u8>,
}

impl ParsedSlot {
    /// The field in contracts.
    pub closed spec fn view(&self) -> SlotV {
        SlotV {
            descriptor: self.descriptor@,
            row: self.row as int,
            field: self.field as int,
            start: self.raw_start as int,
            bytes: self.bytes@,
        }
    }

    /// The field that the slot was asked for.
    pub fn descriptor(&self) -> (descriptor: FormatDescriptor)
        ensures
            descriptor@ == self@.descriptor,
    {
        self.descriptor
    }

    /// The row, counted from the start of the listing.
    pub fn row(&self) -> (row: usize)
        ensures
            row == self@.row,
    {
        self.row
    }

    /// The field, counted from the start of the row.
    pub fn field(&self) -> (field: usize)
        ensures
            field == self@.field,
    {
        self.field
    }

    /// Where in the listing the field starts.
    pub fn raw_start(&self) -> (start: usize)
        ensures
            start == self@.start,
    {
        self.raw_start
    }

    /// The value.
    pub fn as_bytes(&self) -> (bytes: &[u8])
        ensures
            bytes@ == self@.bytes,
    {
        self.bytes.as_slice()
    }
}

/// A row that was read.
pub struct ParsedRow {
    row: usize,
    slots: Vec<ParsedSlot>,
}

/// A row in contracts.
#[verifier::ext_equal]
pub ghost struct RowV {
    pub row: int,
    pub slots: Seq<SlotV>,
}

/// The views of a list of slots.
pub open spec fn slot_views(slots: Seq<ParsedSlot>) -> Seq<SlotV> {
    slots.map_values(|slot: ParsedSlot| slot@)
}

/// The views of a list of rows.
pub open spec fn parsed_views(rows: Seq<ParsedRow>) -> Seq<RowV> {
    rows.map_values(|row: ParsedRow| row@)
}

impl ParsedRow {
    /// The row in contracts.
    pub closed spec fn view(&self) -> RowV {
        RowV { row: self.row as int, slots: slot_views(self.slots@) }
    }

    /// The row's number, counted from the start of the listing.
    pub fn row(&self) -> (row: usize)
        ensures
            row == self@.row,
    {
        self.row
    }

    /// How many slots the row has.
    pub fn len(&self) -> (length: usize)
        ensures
            length == self@.slots.len(),
    {
        self.slots.len()
    }

    /// The slot with a number.
    pub fn slot(&self, index: usize) -> (slot: Option<&ParsedSlot>)
        ensures
            match slot {
                Some(slot) => index < self@.slots.len() && slot@ == self@.slots[index as int],
                None => index >= self@.slots.len(),
            },
    {
        if index < self.slots.len() {
            Some(&self.slots[index])
        } else {
            None
        }
    }
}

/// A row has no more slots than can be counted.
pub proof fn lemma_slots_fit(row: ParsedRow)
    ensures
        row@.slots.len() <= usize::MAX,
{
    assert(row.slots.len() <= usize::MAX);
}

/// The row that raw fields make.
pub open spec fn assembled(
    descriptors: Seq<DescriptorV>,
    row: int,
    fields: Seq<codec::RawFieldV>,
) -> RowV {
    RowV {
        row,
        slots: Seq::new(
            fields.len(),
            |j: int|
                SlotV {
                    descriptor: descriptors[j],
                    row,
                    field: j,
                    start: fields[j].start,
                    bytes: fields[j].bytes,
                },
        ),
    }
}

/// The error of output that does not frame.
pub open spec fn framing_error(
    descriptors: Seq<DescriptorV>,
    failure: codec::FailureV,
) -> error::ErrorV {
    error::ErrorV {
        kind: failure.kind,
        phase: failure.phase,
        row: Some(failure.row),
        field: failure.field,
        field_name: match failure.field {
            Some(field) => Some(descriptors[field].name()),
            None => None,
        },
        expected: None,
        offset: Some(failure.offset),
        profile: None,
    }
}

/// The rows that output holds for fields.
pub open spec fn parsed(descriptors: Seq<DescriptorV>, stdout: Seq<u8>) -> Result<
    Seq<RowV>,
    error::ErrorV,
> {
    match codec::read_rows(stdout, 0, 37, 0, descriptors.len() as int) {
        Ok(rows) => Ok(Seq::new(rows.len(), |i: int| assembled(descriptors, i, rows[i]))),
        Err(failure) => Err(framing_error(descriptors, failure)),
    }
}

/// A failure names a field of the row, if it names one.
proof fn lemma_failure_in_row(
    bytes: Seq<u8>,
    at: int,
    terminator: u8,
    row: int,
    field: int,
    count: int,
)
    requires
        0 <= field <= count,
    ensures
        codec::read_row(bytes, at, terminator, row, field, count) matches Err(failure)
            ==> failure.field matches Some(found) ==> 0 <= found < count,
    decreases count - field,
{
    if field < count {
        if let Ok((_, next)) = codec::read_field(bytes, at, terminator) {
            lemma_failure_in_row(bytes, next, terminator, row, field + 1, count);
        }
    }
}

/// A failure names a field of its row, if it names one.
proof fn lemma_failure_in_rows(bytes: Seq<u8>, at: int, terminator: u8, row: int, count: int)
    requires
        0 <= count,
    ensures
        codec::read_rows(bytes, at, terminator, row, count) matches Err(failure)
            ==> failure.field matches Some(found) ==> 0 <= found < count,
    decreases bytes.len() - at,
{
    if 0 <= at < bytes.len() {
        lemma_failure_in_row(bytes, at, terminator, row, 0, count);
        if let Ok((_, next)) = codec::read_row(bytes, at, terminator, row, 0, count) {
            codec::lemma_row_advances(bytes, at, terminator, row, 0, count);
            lemma_failure_in_rows(bytes, next, terminator, row + 1, count);
        }
    }
}

impl FormatPlan {
    /// The plan in contracts.
    pub closed spec fn view(&self) -> PlanV {
        PlanV {
            profile: self.profile,
            purpose: self.purpose,
            planned: planned_views(self.planned@),
        }
    }

    /// Plan a snapshot of what a listing lists.
    pub fn for_profile(profile: ListProfile, version: &TmuxVersion) -> (plan: FormatPlan)
        ensures
            plan@ == (PlanV {
                profile,
                purpose: PlanPurpose::Intrinsic(placement(profile)),
                planned: planned(info_descriptors(placement(profile)), *version),
            }),
    {
        let of = listed_placement(profile);
        FormatPlan {
            profile,
            purpose: PlanPurpose::Intrinsic(of),
            planned: plan_fields(&list_info_descriptors(of), version),
        }
    }

    /// Plan chosen fields of a listing. The identity of what is listed stands
    /// in front of them.
    ///
    /// # Errors
    ///
    /// [`FormatCodecErrorKind::OutOfScope`] for the first field that the
    /// listing does not report.
    pub fn for_descriptors(
        profile: ListProfile,
        version: &TmuxVersion,
        requested: &[FormatDescriptor],
    ) -> (plan: Result<FormatPlan, FormatCodecError>)
        ensures
            match plan {
                Ok(plan) => projected(profile, *version, descriptor_views(requested@)) == Ok::<
                    PlanV,
                    error::ErrorV,
                >(plan@),
                Err(failure) => projected(profile, *version, descriptor_views(requested@)) == Err::<
                    PlanV,
                    error::ErrorV,
                >(failure@),
            },
    {
        let ghost views = descriptor_views(requested@);
        let identity = listed_placement(profile).field_at(0);
        let mut descriptors: Vec<FormatDescriptor> = Vec::new();
        descriptors.push(FormatDescriptor::Catalog(identity));
        let mut index: usize = 0;
        assert(views.take(0) =~= Seq::empty());
        while index < requested.len()
            invariant
                index <= requested@.len(),
                views == descriptor_views(requested@),
                identity == placement(profile).field(0),
                descriptors@.len() == index + 1,
                descriptors@[0]@ == DescriptorV::Catalog(identity),
                forall|i: int| 0 <= i < index ==> descriptors@[i + 1]@ == #[trigger] views[i],
                first_refused(profile, views.take(index as int)) is None,
            decreases requested@.len() - index,
        {
            let descriptor = requested[index];
            proof {
                let longer = views.take(index + 1);
                assert(longer.drop_last() =~= views.take(index as int));
                assert(longer.last() == descriptor@);
                assert(views[index as int] == descriptor@);
            }
            if !admits(profile, &descriptor) {
                proof {
                    lemma_first_refused(profile, views, index + 1);
                }
                assert(requested@.len() <= usize::MAX);
                return Err(
                    FormatCodecError::unplanned(
                        FormatCodecErrorKind::OutOfScope,
                        Some(index + 1),
                        Some(descriptor.name()),
                        Some(profile),
                    ),
                );
            }
            descriptors.push(descriptor);
            index += 1;
        }
        proof {
            assert(views.take(views.len() as int) =~= views);
            assert(descriptor_views(descriptors@) =~= seq![DescriptorV::Catalog(identity)] + views);
        }
        Ok(
            FormatPlan {
                profile,
                purpose: PlanPurpose::Projection,
                planned: plan_fields(&descriptors, version),
            },
        )
    }

    /// Plan fields that belong to no listing of the catalog. All of them are
    /// asked for.
    ///
    /// # Errors
    ///
    /// [`FormatCodecErrorKind::EmptyPlan`] where there is no field.
    pub fn for_codec(descriptors: &Vec<FormatDescriptor>) -> (plan: Result<
        FormatPlan,
        FormatCodecError,
    >)
        ensures
            match plan {
                Ok(plan) => descriptors@.len() > 0 && plan@ == (PlanV {
                    profile: ListProfile::Sessions,
                    purpose: PlanPurpose::Codec,
                    planned: Seq::new(
                        descriptors@.len(),
                        |i: int|
                            PlannedV {
                                descriptor: descriptors@[i]@,
                                state: PlanFieldState::Selected { slot: i as usize },
                            },
                    ),
                }),
                Err(failure) => descriptors@.len() == 0 && failure@ == (error::ErrorV {
                    kind: FormatCodecErrorKind::EmptyPlan,
                    phase: FormatCodecPhase::Plan,
                    row: None,
                    field: None,
                    field_name: None,
                    expected: None,
                    offset: None,
                    profile: None,
                }),
            },
    {
        if descriptors.len() == 0 {
            return Err(
                FormatCodecError::unplanned(FormatCodecErrorKind::EmptyPlan, None, None, None),
            );
        }
        let mut fields: Vec<PlannedField> = Vec::new();
        let mut index: usize = 0;
        while index < descriptors.len()
            invariant
                index <= descriptors@.len(),
                fields@.len() == index,
                forall|i: int|
                    0 <= i < index ==> (#[trigger] fields@[i])@ == (PlannedV {
                        descriptor: descriptors@[i]@,
                        state: PlanFieldState::Selected { slot: i as usize },
                    }),
            decreases descriptors@.len() - index,
        {
            fields.push(
                PlannedField {
                    descriptor: descriptors[index],
                    state: PlanFieldState::Selected { slot: index },
                },
            );
            index += 1;
        }
        let plan = FormatPlan {
            profile: ListProfile::Sessions,
            purpose: PlanPurpose::Codec,
            planned: fields,
        };
        assert(plan@.planned =~= Seq::new(
            descriptors@.len(),
            |i: int|
                PlannedV {
                    descriptor: descriptors@[i]@,
                    state: PlanFieldState::Selected { slot: i as usize },
                },
        ));
        Ok(plan)
    }

    /// The listing that the plan is made for.
    pub fn profile(&self) -> (profile: ListProfile)
        ensures
            profile == self@.profile,
    {
        self.profile
    }

    /// What the plan is made for.
    pub fn purpose(&self) -> (purpose: PlanPurpose)
        ensures
            purpose == self@.purpose,
    {
        self.purpose
    }

    /// The planned fields, in order.
    pub fn planned(&self) -> (fields: &[PlannedField])
        ensures
            planned_views(fields@) == self@.planned,
    {
        self.planned.as_slice()
    }

    /// The fields that the listing asks for, in order.
    pub fn selected(&self) -> (descriptors: Vec<FormatDescriptor>)
        ensures
            descriptor_views(descriptors@) == selected(self@.planned),
    {
        let ghost views = planned_views(self.planned@);
        let mut descriptors: Vec<FormatDescriptor> = Vec::new();
        let mut index: usize = 0;
        assert(descriptor_views(descriptors@) =~= selected(views.take(0)));
        while index < self.planned.len()
            invariant
                index <= self.planned@.len(),
                views == planned_views(self.planned@),
                descriptor_views(descriptors@) == selected(views.take(index as int)),
            decreases self.planned@.len() - index,
        {
            let field = self.planned[index];
            proof {
                let longer = views.take(index + 1);
                assert(longer.drop_last() =~= views.take(index as int));
                assert(longer.last() == field@);
            }
            let ghost earlier = descriptor_views(descriptors@);
            if let PlanFieldState::Selected { .. } = field.state {
                descriptors.push(field.descriptor);
                assert(descriptor_views(descriptors@) =~= earlier.push(field.descriptor@));
            }
            index += 1;
        }
        assert(views.take(views.len() as int) =~= views);
        descriptors
    }

    /// The format that asks for the fields.
    pub fn template(&self) -> (template: String)
        ensures
            template@ == template_of(selected(self@.planned)),
    {
        let descriptors = self.selected();
        let ghost views = descriptor_views(descriptors@);
        let mut template = String::new();
        let mut index: usize = 0;
        assert(template@ =~= template_of(views.take(0)));
        while index < descriptors.len()
            invariant
                index <= descriptors@.len(),
                views == descriptor_views(descriptors@),
                template@ == template_of(views.take(index as int)),
            decreases descriptors@.len() - index,
        {
            proof {
                let longer = views.take(index + 1);
                assert(longer.drop_last() =~= views.take(index as int));
                assert(longer.last() == descriptors@[index as int]@);
            }
            template.append("#{q:");
            template.append(descriptors[index].name());
            template.append("}%");
            index += 1;
        }
        assert(views.take(views.len() as int) =~= views);
        template
    }

    /// Split a listing's output into rows.
    ///
    /// # Errors
    ///
    /// The first place where the output does not frame.
    pub fn parse_rows(&self, stdout: &[u8]) -> (rows: Result<Vec<ParsedRow>, FormatCodecError>)
        ensures
            match rows {
                Ok(rows) => parsed(selected(self@.planned), stdout@) == Ok::<
                    Seq<RowV>,
                    error::ErrorV,
                >(parsed_views(rows@)),
                Err(failure) => parsed(selected(self@.planned), stdout@) == Err::<
                    Seq<RowV>,
                    error::ErrorV,
                >(failure@),
            },
    {
        let descriptors = self.selected();
        let ghost views = descriptor_views(descriptors@);
        let mut raw = match split_rows(stdout, 37, descriptors.len()) {
            Ok(raw) => raw,
            Err(failure) => {
                proof {
                    lemma_failure_in_rows(stdout@, 0, 37, 0, views.len() as int);
                }
                let field_name = match failure.field {
                    Some(field) => Some(descriptors[field].name()),
                    None => None,
                };
                return Err(
                    FormatCodecError::uncatalogued(
                        failure.kind,
                        failure.phase,
                        failure.row,
                        failure.field,
                        field_name,
                        Some(failure.offset),
                    ),
                );
            },
        };
        let ghost read = codec::row_views(raw@);
        let mut rows: Vec<ParsedRow> = Vec::new();
        let mut index: usize = 0;
        while index < raw.len()
            invariant
                index <= raw@.len(),
                read == codec::row_views(raw@),
                views == descriptor_views(descriptors@),
                forall|i: int|
                    0 <= i < raw@.len() ==> (#[trigger] raw@[i])@.len() == descriptors@.len(),
                rows@.len() == index,
                forall|i: int|
                    0 <= i < index ==> (#[trigger] rows@[i])@ == assembled(views, i, read[i]),
            decreases raw@.len() - index,
        {
            assert(read[index as int] == codec::raw_views(raw@[index as int]@));
            rows.push(assemble(&descriptors, index, &raw[index]));
            index += 1;
        }
        assert(parsed_views(rows@) =~= Seq::new(read.len(), |i: int| assembled(views, i, read[i])));
        Ok(rows)
    }
}

/// Make a row of raw fields.
fn assemble(descriptors: &Vec<FormatDescriptor>, row: usize, fields: &Vec<RawField>) -> (parsed: ParsedRow)
    requires
        fields@.len() == descriptors@.len(),
    ensures
        parsed@ == assembled(
            descriptor_views(descriptors@),
            row as int,
            codec::raw_views(fields@),
        ),
{
    let ghost views = descriptor_views(descriptors@);
    let ghost raw = codec::raw_views(fields@);
    let mut slots: Vec<ParsedSlot> = Vec::new();
    let mut index: usize = 0;
    while index < fields.len()
        invariant
            index <= fields@.len(),
            fields@.len() == descriptors@.len(),
            views == descriptor_views(descriptors@),
            raw == codec::raw_views(fields@),
            slots@.len() == index,
            forall|j: int|
                0 <= j < index ==> (#[trigger] slots@[j])@ == assembled(
                    views,
                    row as int,
                    raw,
                ).slots[j],
        decreases fields@.len() - index,
    {
        let field = &fields[index];
        assert(raw[index as int] == field@);
        assert(views[index as int] == descriptors@[index as int]@);
        slots.push(
            ParsedSlot {
                descriptor: descriptors[index],
                row,
                field: index,
                raw_start: field.start,
                bytes: crate::text::copy_bytes(field.bytes.as_slice()),
            },
        );
        index += 1;
    }
    let parsed = ParsedRow { row, slots };
    assert(parsed@.slots =~= assembled(views, row as int, raw).slots);
    parsed
}

/// Whether a version reports a field: a release from the field's first release
/// on, and a build between releases where every supported release does.
pub open spec fn reports(version: TmuxVersion, descriptor: DescriptorV) -> bool {
    standing(version, descriptor.floor()) is Selected
}

/// A field stands by the release that first reports it: an earlier release does
/// not support it, a later one selects it, and what a build between releases
/// reports is proven only for what every supported release does.
pub proof fn law_fields_stand_by_their_release(release: ReleaseVersion, floor: ReleaseFloor)
    ensures
        ({
            let needed = ReleaseVersion {
                major: 3,
                minor: match floor {
                    ReleaseFloor::V3_2a => 2,
                    ReleaseFloor::V3_3 => 3,
                    ReleaseFloor::V3_6 => 6,
                    ReleaseFloor::V3_7 => 7,
                },
                suffix: if floor is V3_2a {
                    ReleaseSuffix::Letter(97)
                } else {
                    ReleaseSuffix::Final
                },
            };
            &&& floor.version() == needed
            &&& standing(TmuxVersion::Release(release), floor) is Unsupported <==> release.before(
                needed,
            )
            &&& standing(TmuxVersion::Release(release), floor) is Selected <==> !release.before(
                needed,
            )
            &&& standing(TmuxVersion::Development, floor) is Selected <==> floor is V3_2a
            &&& standing(TmuxVersion::Development, floor) is Unproven <==> !(floor is V3_2a)
        }),
{
}

/// A plan selects exactly the fields that the version reports, in their order,
/// and gives each the next slot: its slot is the number of selected fields in
/// front of it.
pub proof fn law_plans_select_what_is_reported(
    descriptors: Seq<DescriptorV>,
    version: TmuxVersion,
    index: int,
)
    requires
        descriptors.len() <= usize::MAX,
        0 <= index < descriptors.len(),
    ensures
        selected(planned(descriptors, version)) == descriptors.filter(
            |descriptor: DescriptorV| reports(version, descriptor),
        ),
        planned(descriptors, version).len() == descriptors.len(),
        planned(descriptors, version)[index].descriptor == descriptors[index],
        planned(descriptors, version)[index].state is Selected <==> reports(
            version,
            descriptors[index],
        ),
        planned(descriptors, version)[index].state matches PlanFieldState::Selected { slot }
            ==> slot == descriptors.take(index).filter(
            |descriptor: DescriptorV| reports(version, descriptor),
        ).len() && slot < selected(planned(descriptors, version)).len() && selected(
            planned(descriptors, version),
        )[slot as int] == descriptors[index],
        planned(descriptors, version)[index].state is Unproven <==> standing(
            version,
            descriptors[index].floor(),
        ) is Unproven,
        planned(descriptors, version)[index].state is Unsupported <==> standing(
            version,
            descriptors[index].floor(),
        ) is Unsupported,
{
    let keep = |descriptor: DescriptorV| reports(version, descriptor);
    let head = descriptors.take(index);
    lemma_selected(descriptors, version);
    lemma_reported_are_filtered(head, version);
    lemma_reported(head, version);
    if reports(version, descriptors[index]) {
        lemma_filter_keeps_place(descriptors, keep, index);
    }
}

proof fn lemma_filter_keeps_place<T>(values: Seq<T>, keep: spec_fn(T) -> bool, index: int)
    requires
        0 <= index < values.len(),
        keep(values[index]),
    ensures
        values.take(index).filter(keep).len() < values.filter(keep).len(),
        values.filter(keep)[values.take(index).filter(keep).len() as int] == values[index],
    decreases values.len(),
{
    reveal(Seq::filter);
    let head = values.drop_last();
    if index < head.len() {
        lemma_filter_keeps_place(head, keep, index);
        assert(head.take(index) =~= values.take(index));
    } else {
        assert(values.take(index) =~= head);
    }
}

proof fn lemma_reported_are_filtered(descriptors: Seq<DescriptorV>, version: TmuxVersion)
    ensures
        reported(descriptors, version) == descriptors.filter(
            |descriptor: DescriptorV| reports(version, descriptor),
        ).len(),
    decreases descriptors.len(),
{
    reveal(Seq::filter);
    if descriptors.len() > 0 {
        lemma_reported_are_filtered(descriptors.drop_last(), version);
    }
}

/// The fields that a plan selects are those that the version reports.
pub proof fn lemma_selected(descriptors: Seq<DescriptorV>, version: TmuxVersion)
    ensures
        selected(planned(descriptors, version)) == descriptors.filter(
            |descriptor: DescriptorV| reports(version, descriptor),
        ),
    decreases descriptors.len(),
{
    reveal(Seq::filter);
    if descriptors.len() > 0 {
        let head = descriptors.drop_last();
        lemma_selected(head, version);
        let fields = planned(descriptors, version);
        assert forall|i: int| 0 <= i < head.len() implies #[trigger] fields[i] == planned(
            head,
            version,
        )[i] by {
            assert(head.take(i) =~= descriptors.take(i));
        }
        assert(fields.drop_last() =~= planned(head, version));
        assert(fields.last().descriptor == descriptors.last());
    } else {
        assert(descriptors =~= Seq::empty());
    }
}

/// The format that asks for fields asks for one more by its quoted name and a
/// percent sign behind what it asks for already.
pub proof fn law_formats_ask_field_by_field(
    descriptors: Seq<DescriptorV>,
    descriptor: DescriptorV,
)
    ensures
        template_of(Seq::empty()) == Seq::<char>::empty(),
        template_of(descriptors.push(descriptor)) == template_of(descriptors) + "#{q:"@
            + descriptor.name() + "}%"@,
{
    assert(descriptors.push(descriptor).drop_last() =~= descriptors);
}

/// A listing admits the shared fields and those of sessions, a listing of
/// windows or panes those of windows too, one of panes those of panes, and one
/// of clients those of clients. No listing admits a field outside the catalog.
pub proof fn law_listings_admit_what_they_reach(
    profile: ListProfile,
    field: CatalogField,
    name: Seq<char>,
    decoder: DecoderKind,
)
    ensures
        !admitted(profile, DescriptorV::Named(name, decoder)),
        field.describes() is Shared || field.describes() is Session ==> admitted(
            profile,
            DescriptorV::Catalog(field),
        ),
        field.describes() is Window ==> (admitted(profile, DescriptorV::Catalog(field))
            <==> profile is Windows || profile is Panes),
        field.describes() is Pane ==> (admitted(profile, DescriptorV::Catalog(field)) <==> profile
            is Panes),
        field.describes() is Client ==> (admitted(profile, DescriptorV::Catalog(field))
            <==> profile is Clients),
{
}

/// A projection is refused at the first field that its listing does not admit,
/// and otherwise plans the identity of what is listed and then the fields, in
/// their order.
pub proof fn law_projections_are_refused_at_the_first_field(
    profile: ListProfile,
    version: TmuxVersion,
    requested: Seq<DescriptorV>,
)
    ensures
        first_refused(profile, requested) matches Some(index) ==> {
            &&& 0 <= index < requested.len()
            &&& !admitted(profile, requested[index])
            &&& forall|i: int| 0 <= i < index ==> admitted(profile, #[trigger] requested[i])
            &&& projected(profile, version, requested) is Err
            &&& projected(profile, version, requested)->Err_0.kind is OutOfScope
            &&& projected(profile, version, requested)->Err_0.field == Some(index + 1)
            &&& projected(profile, version, requested)->Err_0.field_name == Some(
                requested[index].name(),
            )
            &&& projected(profile, version, requested)->Err_0.profile == Some(profile)
        },
        first_refused(profile, requested) is None ==> {
            let plan = projected(profile, version, requested)->Ok_0;
            &&& forall|i: int| 0 <= i < requested.len() ==> admitted(profile, #[trigger] requested[i])
            &&& projected(profile, version, requested) is Ok
            &&& plan.profile == profile
            &&& plan.purpose is Projection
            &&& plan.planned == planned(
                seq![DescriptorV::Catalog(placement(profile).field(0))] + requested,
                version,
            )
        },
    decreases requested.len(),
{
    if requested.len() > 0 {
        let head = requested.drop_last();
        law_projections_are_refused_at_the_first_field(profile, version, head);
        assert forall|i: int| 0 <= i < head.len() implies #[trigger] head[i] == requested[i] by {}
        if first_refused(profile, requested) is None {
            assert forall|i: int| 0 <= i < requested.len() implies admitted(
                profile,
                #[trigger] requested[i],
            ) by {
                if i < head.len() {
                    assert(head[i] == requested[i]);
                }
            }
        } else {
            let index = first_refused(profile, requested)->0;
            assert forall|i: int| 0 <= i < index implies admitted(
                profile,
                #[trigger] requested[i],
            ) by {
                assert(head[i] == requested[i]);
            }
        }
    }
}

/// Rows that tmux printed of fields are parsed into slots that hold the values
/// they were printed from, each with its field, its row and its place.
pub proof fn law_printed_rows_are_parsed(
    descriptors: Seq<DescriptorV>,
    rows: Seq<Seq<Seq<u8>>>,
    row: int,
    field: int,
)
    requires
        forall|i: int| 0 <= i < rows.len() ==> (#[trigger] rows[i]).len() == descriptors.len(),
        forall|i: int, j: int|
            0 <= i < rows.len() && 0 <= j < rows[i].len() ==> codec::free_of_nul(
                #[trigger] rows[i][j],
            ),
        0 <= row < rows.len(),
        0 <= field < descriptors.len(),
    ensures
        ({
            let read = parsed(descriptors, codec::framed_rows(rows, 37));
            let slot = read->Ok_0[row].slots[field];
            &&& read is Ok
            &&& read->Ok_0.len() == rows.len()
            &&& read->Ok_0[row].row == row
            &&& read->Ok_0[row].slots.len() == descriptors.len()
            &&& slot.bytes == rows[row][field]
            &&& slot.descriptor == descriptors[field]
            &&& slot.row == row
            &&& slot.field == field
        }),
{
    let count = descriptors.len() as int;
    codec::law_framing_round_trips(rows, 37, count);
    let raw = codec::read_rows(codec::framed_rows(rows, 37), 0, 37, 0, count)->Ok_0;
    assert(codec::table(raw)[row] == codec::values(raw[row]));
    assert(codec::values(raw[row])[field] == raw[row][field].bytes);
}

/// Each listing lists its own objects.
pub proof fn law_listings_list_their_objects(profile: ListProfile)
    ensures
        profile is Sessions <==> placement(profile) is SessionInfo,
        profile is Windows <==> placement(profile) is WindowInfo,
        profile is Panes <==> placement(profile) is PaneInfo,
        profile is Clients <==> placement(profile) is ClientInfo,
{
}

/// The fields of an object are those of its snapshot, in their order.
pub proof fn law_objects_are_described_by_their_fields(of: InfoPlacement, index: int)
    requires
        0 <= index < of.count(),
    ensures
        info_descriptors(of).len() == of.count(),
        info_descriptors(of)[index] == DescriptorV::Catalog(of.field(index)),
{
}

/// A slot keeps the place where its field started, and output that does not
/// frame is reported where it failed, with the name of the field.
pub proof fn law_slots_keep_their_places(
    descriptors: Seq<DescriptorV>,
    stdout: Seq<u8>,
    row: int,
    field: int,
)
    ensures
        codec::read_rows(stdout, 0, 37, 0, descriptors.len() as int) matches Ok(rows) ==> parsed(
            descriptors,
            stdout,
        ) is Ok && parsed(descriptors, stdout)->Ok_0.len() == rows.len() && (0 <= row < rows.len()
            && 0 <= field < rows[row].len() ==> {
            let slot = parsed(descriptors, stdout)->Ok_0[row].slots[field];
            &&& parsed(descriptors, stdout)->Ok_0[row].slots.len() == rows[row].len()
            &&& slot.start == rows[row][field].start
            &&& slot.bytes == rows[row][field].bytes
            &&& slot.descriptor == descriptors[field]
        }),
        codec::read_rows(stdout, 0, 37, 0, descriptors.len() as int) matches Err(failure)
            ==> parsed(descriptors, stdout) is Err && ({
            let error = parsed(descriptors, stdout)->Err_0;
            &&& error.kind == failure.kind
            &&& error.phase == failure.phase
            &&& error.row == Some(failure.row)
            &&& error.field == failure.field
            &&& error.offset == Some(failure.offset)
            &&& failure.field is None ==> error.field_name is None
            &&& failure.field matches Some(at) ==> error.field_name == Some(descriptors[at].name())
        }),
{
}

} // verus!
