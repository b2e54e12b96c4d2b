//! A pane, reached through one edge.

use vstd::prelude::*;

use crate::formats::catalog::CatalogField;
use crate::formats::catalog::InfoPlacement;
use crate::query::error::FilterExpressionError;
use crate::query::error::FilterExpressionErrorKind;
use crate::query::filterable::Filterable;
use crate::query::model;
use crate::query::private::Predicate;
use crate::query::schema;
use crate::query::schema::FilterSchema;
use crate::query::schema::FilterSchemaDescriptor;
use crate::snapshot::pane_info::PaneFields;
use crate::snapshot::projection;
use crate::snapshot::projection::PaneProjection;
use crate::snapshot::record;
use crate::snapshot::record::describe;
use crate::snapshot::record::validate_field;
use crate::target::PaneId;
use crate::target::ServerIdentity;
use crate::target::SessionId;
use crate::target::WindowId;

verus! {

/// A pane, reached through one edge. Two handles are equal where they reach one
/// pane of one server.
pub struct Pane {
    projection: PaneProjection,
}

/// The identity of a pane's snapshot.
pub open spec fn pane_number(pane: projection::PaneProjectionV) -> u32 {
    pane.pane.at(CatalogField::PaneId)->Available_0->PaneId_0
}

/// The panes of a list in contracts.
pub open spec fn pane_views(panes: Seq<Pane>) -> Seq<projection::PaneProjectionV> {
    panes.map_values(|pane: Pane| pane@)
}

impl Pane {
    /// The pane in contracts.
    pub closed spec fn view(&self) -> projection::PaneProjectionV {
        self.projection@
    }

    /// Hold a row of a listing.
    pub fn new(projection: PaneProjection) -> (pane: Pane)
        ensures
            pane@ == projection@,
    {
        Pane { projection }
    }

    /// The row of the listing.
    pub fn projection(&self) -> (projection: &PaneProjection)
        ensures
            projection@ == self@,
    {
        &self.projection
    }

    /// The pane's identity.
    pub fn id(&self) -> (id: PaneId)
        ensures
            id@ == pane_number(self@),
    {
        *self.projection.pane.pane_id()
    }

    /// The window that holds the pane.
    pub fn window_id(&self) -> (id: WindowId)
        ensures
            id@ == self@.link_identity.window,
    {
        self.projection.link_identity.window_id()
    }

    /// The session that the edge leads from.
    pub fn session_id(&self) -> (id: SessionId)
        ensures
            id@ == self@.link_identity.session,
    {
        self.projection.link_identity.session_id()
    }

    /// The server that the pane lives on.
    pub fn server_identity(&self) -> (identity: &ServerIdentity)
        ensures
            identity@ == self@.link_identity.server,
    {
        self.projection.link_identity.server_identity()
    }

    /// Copy the handle.
    pub fn copy(&self) -> (copy: Pane)
        ensures
            copy@ == self@,
    {
        Pane { projection: self.projection.copy() }
    }
}

impl Clone for Pane {
    fn clone(&self) -> (copy: Self)
        ensures
            copy@ == self@,
    {
        self.copy()
    }
}

impl PartialEq for Pane {
    fn eq(&self, other: &Self) -> (same: bool) {
        *self.server_identity() == *other.server_identity() && self.id().same(&other.id())
    }
}

impl vstd::std_specs::cmp::PartialEqSpecImpl for Pane {
    open spec fn obeys_eq_spec() -> bool {
        true
    }

    open spec fn eq_spec(&self, other: &Self) -> bool {
        self@.link_identity.server == other@.link_identity.server && pane_number(self@) == pane_number(other@)
    }
}

impl Eq for Pane {

}

impl Filterable for Pane {
    type Fields = PaneFields<Pane>;

    open spec fn target_name() -> Seq<char> {
        "pane"@
    }

    open spec fn passes(&self, predicate: model::PredicateV) -> bool {
        record::record_passes(self@.pane, predicate)
    }

    open spec fn checked(field: Seq<char>, data: model::DataV) -> (
        Option<FilterExpressionErrorKind>,
        model::DataV,
    ) {
        record::checked_field(InfoPlacement::PaneInfo, field, data)
    }

    fn filter_target() -> (target: &'static str) {
        "pane"
    }

    fn filter_fields() -> (fields: Self::Fields)
        ensures
            fields.are_of("pane"@),
    {
        PaneFields::for_target("pane")
    }

    fn filter_matches(&self, predicate: &Predicate) -> (passes: bool) {
        assert(self.passes(predicate@) == self.projection.pane.passes(predicate@));
        self.projection.pane.filter_matches(predicate)
    }

    fn filter_validate(predicate: &mut Predicate) -> (result: Result<(), FilterExpressionError>) {
        validate_field(InfoPlacement::PaneInfo, predicate)
    }

    proof fn lemma_settles_again(field: Seq<char>, data: model::DataV) {
        record::lemma_field_settles_again(InfoPlacement::PaneInfo, field, data);
    }

    proof fn lemma_passes_alike(&self, left: model::PredicateV, right: model::PredicateV) {
        record::lemma_record_passes_alike(self@.pane, left, right);
    }

    proof fn lemma_settling_keeps_answers(
        &self,
        predicate: model::PredicateV,
        target: Option<Seq<char>>,
    ) {
        record::lemma_known_literals_are_settled(
            InfoPlacement::PaneInfo,
            predicate.field,
            predicate.data,
        );
    }
}

impl FilterSchema for Pane {
    open spec fn described() -> Seq<schema::DescriptorV> {
        seq![record::described(InfoPlacement::PaneInfo, "pane"@)]
    }

    fn describe() -> (catalog: Vec<FilterSchemaDescriptor>) {
        proof {
            record::lemma_described_is_closed(InfoPlacement::PaneInfo, "pane"@);
        }
        let mut catalog: Vec<FilterSchemaDescriptor> = Vec::new();
        catalog.push(describe(InfoPlacement::PaneInfo, "pane"));
        assert(schema::catalog_views(catalog@) =~= Self::described());
        catalog
    }
}

/// A pane passes and checks a test as its snapshot does.
pub proof fn law_panes_pass_as_their_snapshot(
    pane: Pane,
    predicate: model::PredicateV,
    field: Seq<char>,
    data: model::DataV,
)
    ensures
        pane.passes(predicate) <==> record::record_passes(pane@.pane, predicate),
        Pane::checked(field, data) == record::checked_field(InfoPlacement::PaneInfo, field, data),
        Pane::target_name() == "pane"@,
        Pane::described() == seq![record::described(InfoPlacement::PaneInfo, "pane"@)],
{
}

} // verus!
