//! A window, reached through one edge.

use vstd::prelude::*;

use crate::formats::catalog::CatalogField;
use crate::formats::catalog::InfoPlacement;
use crate::query::error::FilterExpressionError;
use crate::query::error::FilterExpressionErrorKind;
use crate::query::filterable::Filterable;
use crate::query::model;
use crate::query::private::Predicate;
use crate::query::schema;
use crate::query::schema::FilterSchema;
use crate::query::schema::FilterSchemaDescriptor;
use crate::snapshot::projection;
use crate::snapshot::projection::WindowProjection;
use crate::snapshot::record;
use crate::snapshot::record::describe;
use crate::snapshot::record::validate_field;
use crate::snapshot::value;
use crate::snapshot::value::Availability;
use crate::snapshot::window_info::WindowFields;
use crate::target::ServerIdentity;
use crate::target::SessionId;
use crate::target::WindowId;
use crate::text::TmuxText;

verus! {

/// A window, reached through one edge. Two handles are equal where they reach
/// one window of one server through one edge.
pub struct Window {
    projection: WindowProjection,
}

/// The identity of a window's snapshot.
pub open spec fn window_number(window: projection::WindowProjectionV) -> u32 {
    window.window.at(CatalogField::WindowId)->Available_0->WindowId_0
}

/// The windows of a list in contracts.
pub open spec fn window_views(windows: Seq<Window>) -> Seq<projection::WindowProjectionV> {
    windows.map_values(|window: Window| window@)
}

impl Window {
    /// The window in contracts.
    pub closed spec fn view(&self) -> projection::WindowProjectionV {
        self.projection@
    }

    /// Hold a row of a listing.
    pub fn new(projection: WindowProjection) -> (window: Window)
        ensures
            window@ == projection@,
    {
        Window { projection }
    }

    /// The row of the listing.
    pub fn projection(&self) -> (projection: &WindowProjection)
        ensures
            projection@ == self@,
    {
        &self.projection
    }

    /// The window's identity.
    pub fn id(&self) -> (id: WindowId)
        ensures
            id@ == window_number(self@),
    {
        *self.projection.window.window_id()
    }

    /// The session that the edge leads from.
    pub fn session_id(&self) -> (id: SessionId)
        ensures
            id@ == self@.link.identity.session,
    {
        self.projection.link.identity.session_id()
    }

    /// The window's index in its session.
    pub fn index(&self) -> (index: i32)
        ensures
            index == self@.link.identity.index,
    {
        self.projection.link.identity.window_index()
    }

    /// Report whether the edge is its session's active window.
    pub fn is_active(&self) -> (active: bool)
        ensures
            active == self@.link.window_active,
    {
        self.projection.link.window_active
    }

    /// The window's name.
    pub fn name(&self) -> (name: &TmuxText)
        ensures
            self@.window.at(CatalogField::WindowName) == Availability::Available(
                value::ScalarV::Text(name@),
            ),
    {
        self.projection.window.window_name()
    }

    /// The server that the window lives on.
    pub fn server_identity(&self) -> (identity: &ServerIdentity)
        ensures
            identity@ == self@.link.identity.server,
    {
        self.projection.link.identity.server_identity()
    }

    /// Copy the handle.
    pub fn copy(&self) -> (copy: Window)
        ensures
            copy@ == self@,
    {
        Window { projection: self.projection.copy() }
    }
}

impl Clone for Window {
    fn clone(&self) -> (copy: Self)
        ensures
            copy@ == self@,
    {
        self.copy()
    }
}

impl PartialEq for Window {
    fn eq(&self, other: &Self) -> (same: bool) {
        self.projection.link.identity == other.projection.link.identity
    }
}

impl vstd::std_specs::cmp::PartialEqSpecImpl for Window {
    open spec fn obeys_eq_spec() -> bool {
        true
    }

    open spec fn eq_spec(&self, other: &Self) -> bool {
        self@.link.identity == other@.link.identity
    }
}

impl Eq for Window {

}

impl Filterable for Window {
    type Fields = WindowFields<Window>;

    open spec fn target_name() -> Seq<char> {
        "window"@
    }

    open spec fn passes(&self, predicate: model::PredicateV) -> bool {
        record::record_passes(self@.window, predicate)
    }

    open spec fn checked(field: Seq<char>, data: model::DataV) -> (
        Option<FilterExpressionErrorKind>,
        model::DataV,
    ) {
        record::checked_field(InfoPlacement::WindowInfo, field, data)
    }

    fn filter_target() -> (target: &'static str) {
        "window"
    }

    fn filter_fields() -> (fields: Self::Fields)
        ensures
            fields.are_of("window"@),
    {
        WindowFields::for_target("window")
    }

    fn filter_matches(&self, predicate: &Predicate) -> (passes: bool) {
        assert(self.passes(predicate@) == self.projection.window.passes(predicate@));
        self.projection.window.filter_matches(predicate)
    }

    fn filter_validate(predicate: &mut Predicate) -> (result: Result<(), FilterExpressionError>) {
        validate_field(InfoPlacement::WindowInfo, predicate)
    }

    proof fn lemma_settles_again(field: Seq<char>, data: model::DataV) {
        record::lemma_field_settles_again(InfoPlacement::WindowInfo, field, data);
    }

    proof fn lemma_passes_alike(&self, left: model::PredicateV, right: model::PredicateV) {
        record::lemma_record_passes_alike(self@.window, left, right);
    }

    proof fn lemma_settling_keeps_answers(
        &self,
        predicate: model::PredicateV,
        target: Option<Seq<char>>,
    ) {
        record::lemma_known_literals_are_settled(
            InfoPlacement::WindowInfo,
            predicate.field,
            predicate.data,
        );
    }
}

impl FilterSchema for Window {
    open spec fn described() -> Seq<schema::DescriptorV> {
        seq![record::described(InfoPlacement::WindowInfo, "window"@)]
    }

    fn describe() -> (catalog: Vec<FilterSchemaDescriptor>) {
        proof {
            record::lemma_described_is_closed(InfoPlacement::WindowInfo, "window"@);
        }
        let mut catalog: Vec<FilterSchemaDescriptor> = Vec::new();
        catalog.push(describe(InfoPlacement::WindowInfo, "window"));
        assert(schema::catalog_views(catalog@) =~= Self::described());
        catalog
    }
}

/// A window passes and checks a test as its snapshot does.
pub proof fn law_windows_pass_as_their_snapshot(
    window: Window,
    predicate: model::PredicateV,
    field: Seq<char>,
    data: model::DataV,
)
    ensures
        window.passes(predicate) <==> record::record_passes(window@.window, predicate),
        Window::checked(field, data) == record::checked_field(InfoPlacement::WindowInfo, field, data),
        Window::target_name() == "window"@,
        Window::described() == seq![record::described(InfoPlacement::WindowInfo, "window"@)],
{
}

} // verus!
