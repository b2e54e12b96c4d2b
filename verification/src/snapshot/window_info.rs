//! The snapshot of a window and the handles of its fields.

use vstd::prelude::*;

use crate::formats::catalog;
use crate::formats::catalog::CatalogField;
use crate::formats::catalog::InfoPlacement;
use crate::formats::error;
use crate::formats::error::FormatCodecError;
use crate::formats::plan::FormatPlan;
use crate::formats::plan::ParsedRow;
use crate::query::error::FilterExpressionError;
use crate::query::error::FilterExpressionErrorKind;
use crate::query::fields::BoolField;
use crate::query::fields::IntegerField;
use crate::query::fields::TextField;
use crate::query::filterable::Filterable;
use crate::query::model;
use crate::query::private::Predicate;
use crate::query::private::bool_field;
use crate::query::private::integer_field;
use crate::query::private::text_field;
use crate::query::schema;
use crate::query::schema::FilterSchema;
use crate::query::schema::FilterSchemaDescriptor;
use crate::snapshot::hydrator::RowHydrator;
use crate::snapshot::record;
use crate::snapshot::record::Record;
use crate::snapshot::record::describe;
use crate::snapshot::record::validate_field;
use crate::snapshot::value;
use crate::snapshot::value::Availability;
use crate::target::WindowId;
use crate::text::TmuxText;

verus! {

/// The snapshot of a window: the fields that tmux reports of it.
pub struct WindowInfo {
    record: Record,
}

/// The outcome of hydration in contracts.
pub open spec fn info_view(read: Result<WindowInfo, FormatCodecError>) -> Result<
    record::RecordV,
    error::ErrorV,
> {
    match read {
        Ok(info) => Ok(info@),
        Err(failure) => Err(failure@),
    }
}

/// The snapshots of a list in contracts.
pub open spec fn info_views(infos: Seq<WindowInfo>) -> Seq<record::RecordV> {
    infos.map_values(|info: WindowInfo| info@)
}

impl WindowInfo {
    /// The snapshot in contracts.
    pub closed spec fn view(&self) -> record::RecordV {
        self.record@
    }

    #[verifier::type_invariant]
    spec fn valid(self) -> bool {
        self.record@.placement == InfoPlacement::WindowInfo
    }

    /// Copy the snapshot.
    pub fn copy(&self) -> (copy: WindowInfo)
        ensures
            copy@ == self@,
    {
        proof {
            use_type_invariant(self);
        }
        WindowInfo { record: self.record.copy() }
    }

    /// Render the snapshot without the bytes of its texts.
    pub fn debug_text(&self) -> (rendering: String)
        ensures
            rendering@ == record::record_rendering("WindowInfo"@, self@),
    {
        self.record.debug_text("WindowInfo")
    }

    /// Return the decoded `window_id` value, the snapshot's identity.
    pub fn window_id(&self) -> (value: &WindowId)
        ensures
            self@.at(CatalogField::WindowId) == Availability::Available(value::ScalarV::WindowId(value@)),
    {
        proof {
            use_type_invariant(self);
            reveal(CatalogField::place);
            reveal(CatalogField::decoded_by);
            reveal(CatalogField::since);
            reveal(CatalogField::when_empty);
            reveal(catalog::window_field);
        }
        self.record.window_id(0)
    }

    /// Return the decoded `window_activity` value.
    pub fn window_activity(&self) -> (value: &i64)
        ensures
            self@.at(CatalogField::WindowActivity) == Availability::Available(value::ScalarV::Timestamp(*value)),
    {
        proof {
            use_type_invariant(self);
            reveal(CatalogField::place);
            reveal(CatalogField::decoded_by);
            reveal(CatalogField::since);
            reveal(CatalogField::when_empty);
            reveal(catalog::window_field);
        }
        self.record.timestamp(1)
    }

    /// Return the decoded `window_cell_height` value.
    pub fn window_cell_height(&self) -> (value: &u32)
        ensures
            self@.at(CatalogField::WindowCellHeight) == Availability::Available(value::ScalarV::U32(*value)),
    {
        proof {
            use_type_invariant(self);
            reveal(CatalogField::place);
            reveal(CatalogField::decoded_by);
            reveal(CatalogField::since);
            reveal(CatalogField::when_empty);
            reveal(catalog::window_field);
        }
        self.record.u32(2)
    }

    /// Return the decoded `window_cell_width` value.
    pub fn window_cell_width(&self) -> (value: &u32)
        ensures
            self@.at(CatalogField::WindowCellWidth) == Availability::Available(value::ScalarV::U32(*value)),
    {
        proof {
            use_type_invariant(self);
            reveal(CatalogField::place);
            reveal(CatalogField::decoded_by);
            reveal(CatalogField::since);
            reveal(CatalogField::when_empty);
            reveal(catalog::window_field);
        }
        self.record.u32(3)
    }

    /// Return the decoded `window_height` value.
    pub fn window_height(&self) -> (value: &u32)
        ensures
            self@.at(CatalogField::WindowHeight) == Availability::Available(value::ScalarV::U32(*value)),
    {
        proof {
            use_type_invariant(self);
            reveal(CatalogField::place);
            reveal(CatalogField::decoded_by);
            reveal(CatalogField::since);
            reveal(CatalogField::when_empty);
            reveal(catalog::window_field);
        }
        self.record.u32(4)
    }

    /// Return the decoded `window_layout` value.
    pub fn window_layout(&self) -> (value: &TmuxText)
        ensures
            self@.at(CatalogField::WindowLayout) == Availability::Available(value::ScalarV::Text(value@)),
    {
        proof {
            use_type_invariant(self);
            reveal(CatalogField::place);
            reveal(CatalogField::decoded_by);
            reveal(CatalogField::since);
            reveal(CatalogField::when_empty);
            reveal(catalog::window_field);
        }
        self.record.text(5)
    }

    /// Return the decoded `window_name` value.
    pub fn window_name(&self) -> (value: &TmuxText)
        ensures
            self@.at(CatalogField::WindowName) == Availability::Available(value::ScalarV::Text(value@)),
    {
        proof {
            use_type_invariant(self);
            reveal(CatalogField::place);
            reveal(CatalogField::decoded_by);
            reveal(CatalogField::since);
            reveal(CatalogField::when_empty);
            reveal(catalog::window_field);
        }
        self.record.text(6)
    }

    /// Return the decoded `window_panes` value.
    pub fn window_panes(&self) -> (value: &u32)
        ensures
            self@.at(CatalogField::WindowPanes) == Availability::Available(value::ScalarV::U32(*value)),
    {
        proof {
            use_type_invariant(self);
            reveal(CatalogField::place);
            reveal(CatalogField::decoded_by);
            reveal(CatalogField::since);
            reveal(CatalogField::when_empty);
            reveal(catalog::window_field);
        }
        self.record.u32(7)
    }

    /// Return the decoded `window_visible_layout` value.
    pub fn window_visible_layout(&self) -> (value: &TmuxText)
        ensures
            self@.at(CatalogField::WindowVisibleLayout) == Availability::Available(value::ScalarV::Text(value@)),
    {
        proof {
            use_type_invariant(self);
            reveal(CatalogField::place);
            reveal(CatalogField::decoded_by);
            reveal(CatalogField::since);
            reveal(CatalogField::when_empty);
            reveal(catalog::window_field);
        }
        self.record.text(8)
    }

    /// Return the decoded `window_width` value.
    pub fn window_width(&self) -> (value: &u32)
        ensures
            self@.at(CatalogField::WindowWidth) == Availability::Available(value::ScalarV::U32(*value)),
    {
        proof {
            use_type_invariant(self);
            reveal(CatalogField::place);
            reveal(CatalogField::decoded_by);
            reveal(CatalogField::since);
            reveal(CatalogField::when_empty);
            reveal(catalog::window_field);
        }
        self.record.u32(9)
    }

    /// Return the decoded `window_zoomed_flag` value.
    pub fn window_zoomed_flag(&self) -> (value: &bool)
        ensures
            self@.at(CatalogField::WindowZoomedFlag) == Availability::Available(value::ScalarV::Bool(*value)),
    {
        proof {
            use_type_invariant(self);
            reveal(CatalogField::place);
            reveal(CatalogField::decoded_by);
            reveal(CatalogField::since);
            reveal(CatalogField::when_empty);
            reveal(catalog::window_field);
        }
        self.record.bool(10)
    }

    /// Read a window from a row, and leave the walk behind its fields.
    ///
    /// # Errors
    ///
    /// The first field that does not belong to the plan or does not decode.
    pub fn decode(walk: &mut RowHydrator<'_, '_>) -> (read: Result<WindowInfo, FormatCodecError>)
        requires
            old(walk).inside(),
        ensures
            match record::hydrated(old(walk)@, InfoPlacement::WindowInfo) {
                Ok((record, behind)) => read is Ok && read->Ok_0@ == record && final(walk)@
                    == behind && final(walk).inside(),
                Err(failure) => read is Err && read->Err_0@ == failure,
            },
    {
        match Record::decode(walk, InfoPlacement::WindowInfo) {
            Ok(record) => Ok(WindowInfo { record }),
            Err(failure) => Err(failure),
        }
    }
}

impl Clone for WindowInfo {
    fn clone(&self) -> (copy: Self)
        ensures
            copy@ == self@,
    {
        self.copy()
    }
}

impl PartialEq for WindowInfo {
    fn eq(&self, other: &Self) -> (same: bool) {
        self.record.same(&other.record)
    }
}

impl vstd::std_specs::cmp::PartialEqSpecImpl for WindowInfo {
    open spec fn obeys_eq_spec() -> bool {
        true
    }

    open spec fn eq_spec(&self, other: &Self) -> bool {
        self@ == other@
    }
}

impl Eq for WindowInfo {

}

/// Read the snapshot of a window from a row.
///
/// # Errors
///
/// [`FormatCodecErrorKind::PlanRowMismatch`](crate::formats::error::FormatCodecErrorKind)
/// for a plan that was not made for snapshots of windows, the first field that
/// does not belong to the plan or does not decode, and a field that is left.
pub fn hydrate_window_info(plan: &FormatPlan, row: &ParsedRow) -> (read: Result<
    WindowInfo,
    FormatCodecError,
>)
    ensures
        info_view(read) == record::snapshot_of(plan@, row@, InfoPlacement::WindowInfo),
{
    match Record::hydrate(plan, row, InfoPlacement::WindowInfo) {
        Ok(record) => Ok(WindowInfo { record }),
        Err(failure) => Err(failure),
    }
}

/// Typed filter field handles for a `window`.
///
/// The type parameter names what an expression built from these handles
/// matches. Every field is named after the tmux format it reads.
pub struct WindowFields<Target> {
    /// The `window_id` field.
    pub window_id: TextField<Target>,
    /// The `window_activity` field.
    pub window_activity: IntegerField<Target, i64>,
    /// The `window_cell_height` field.
    pub window_cell_height: IntegerField<Target, u32>,
    /// The `window_cell_width` field.
    pub window_cell_width: IntegerField<Target, u32>,
    /// The `window_height` field.
    pub window_height: IntegerField<Target, u32>,
    /// The `window_layout` field.
    pub window_layout: TextField<Target>,
    /// The `window_name` field.
    pub window_name: TextField<Target>,
    /// The `window_panes` field.
    pub window_panes: IntegerField<Target, u32>,
    /// The `window_visible_layout` field.
    pub window_visible_layout: TextField<Target>,
    /// The `window_width` field.
    pub window_width: IntegerField<Target, u32>,
    /// The `window_zoomed_flag` field.
    pub window_zoomed_flag: BoolField<Target>,
}

impl<Target> WindowFields<Target> {
    /// Whether each handle names its field of a target.
    pub open spec fn are_of(&self, target: Seq<char>) -> bool {
        &&& self.window_id.id().names(target, "window_id"@)
        &&& self.window_activity.id().names(target, "window_activity"@)
        &&& self.window_cell_height.id().names(target, "window_cell_height"@)
        &&& self.window_cell_width.id().names(target, "window_cell_width"@)
        &&& self.window_height.id().names(target, "window_height"@)
        &&& self.window_layout.id().names(target, "window_layout"@)
        &&& self.window_name.id().names(target, "window_name"@)
        &&& self.window_panes.id().names(target, "window_panes"@)
        &&& self.window_visible_layout.id().names(target, "window_visible_layout"@)
        &&& self.window_width.id().names(target, "window_width"@)
        &&& self.window_zoomed_flag.id().names(target, "window_zoomed_flag"@)
    }

    /// Build handles bound to one filter target name.
    pub fn for_target(target: &'static str) -> (fields: Self)
        ensures
            fields.are_of(target@),
    {
        WindowFields {
            window_id: text_field(target, "window_id"),
            window_activity: integer_field(target, "window_activity"),
            window_cell_height: integer_field(target, "window_cell_height"),
            window_cell_width: integer_field(target, "window_cell_width"),
            window_height: integer_field(target, "window_height"),
            window_layout: text_field(target, "window_layout"),
            window_name: text_field(target, "window_name"),
            window_panes: integer_field(target, "window_panes"),
            window_visible_layout: text_field(target, "window_visible_layout"),
            window_width: integer_field(target, "window_width"),
            window_zoomed_flag: bool_field(target, "window_zoomed_flag"),
        }
    }

    /// Render which set of handles is being held.
    pub fn debug_text(&self) -> (rendering: String)
        ensures
            rendering@ == "WindowFields { .. }"@,
    {
        "WindowFields { .. }".to_owned()
    }
}

impl Filterable for WindowInfo {
    type Fields = WindowFields<WindowInfo>;

    open spec fn target_name() -> Seq<char> {
        "window"@
    }

    open spec fn passes(&self, predicate: model::PredicateV) -> bool {
        record::record_passes(self@, predicate)
    }

    open spec fn checked(field: Seq<char>, data: model::DataV) -> (
        Option<FilterExpressionErrorKind>,
        model::DataV,
    ) {
        record::checked_field(InfoPlacement::WindowInfo, field, data)
    }

    fn filter_target() -> (target: &'static str) {
        "window"
    }

    fn filter_fields() -> (fields: Self::Fields)
        ensures
            fields.are_of("window"@),
    {
        WindowFields::for_target("window")
    }

    fn filter_matches(&self, predicate: &Predicate) -> (passes: bool) {
        assert(self.passes(predicate@) == record::record_passes(self@, predicate@));
        self.record.matches(predicate)
    }

    fn filter_validate(predicate: &mut Predicate) -> (result: Result<(), FilterExpressionError>) {
        validate_field(InfoPlacement::WindowInfo, predicate)
    }

    proof fn lemma_settles_again(field: Seq<char>, data: model::DataV) {
        record::lemma_field_settles_again(InfoPlacement::WindowInfo, field, data);
    }

    proof fn lemma_passes_alike(&self, left: model::PredicateV, right: model::PredicateV) {
        record::lemma_record_passes_alike(self@, left, right);
    }

    proof fn lemma_settling_keeps_answers(
        &self,
        predicate: model::PredicateV,
        target: Option<Seq<char>>,
    ) {
        record::lemma_known_literals_are_settled(
            InfoPlacement::WindowInfo,
            predicate.field,
            predicate.data,
        );
    }
}

impl FilterSchema for WindowInfo {
    open spec fn described() -> Seq<schema::DescriptorV> {
        seq![record::described(InfoPlacement::WindowInfo, "window"@)]
    }

    fn describe() -> (catalog: Vec<FilterSchemaDescriptor>) {
        proof {
            record::lemma_described_is_closed(InfoPlacement::WindowInfo, "window"@);
        }
        let mut catalog: Vec<FilterSchemaDescriptor> = Vec::new();
        catalog.push(describe(InfoPlacement::WindowInfo, "window"));
        assert(schema::catalog_views(catalog@) =~= Self::described());
        catalog
    }
}

/// A snapshot of a window passes and checks a test by the values that it holds.
pub proof fn law_window_snapshots_pass_by_their_values(
    info: WindowInfo,
    predicate: model::PredicateV,
    field: Seq<char>,
    data: model::DataV,
)
    ensures
        info.passes(predicate) <==> record::record_passes(info@, predicate),
        WindowInfo::checked(field, data) == record::checked_field(InfoPlacement::WindowInfo, field, data),
        WindowInfo::target_name() == "window"@,
        WindowInfo::described() == seq![record::described(InfoPlacement::WindowInfo, "window"@)],
{
}

} // verus!
