//! Windows and panes as listings report them: each row is one edge between a
//! session and a window.

use vstd::prelude::*;

use crate::formats::catalog;
use crate::formats::catalog::CatalogField;
use crate::formats::catalog::DecoderKind;
use crate::formats::catalog::InfoPlacement;
use crate::formats::error;
use crate::formats::error::FormatCodecError;
use crate::formats::error::ListProfile;
use crate::formats::plan;
use crate::formats::plan::list_info_supplements;
use crate::formats::plan::FormatDescriptor;
use crate::formats::plan::FormatPlan;
use crate::formats::plan::ParsedRow;
use crate::formats::plan::PlanPurpose;
use crate::snapshot::hydrator;
use crate::snapshot::hydrator::Need;
use crate::snapshot::hydrator::RowHydrator;
use crate::snapshot::hydrator::WantedField;
use crate::snapshot::pane_info::PaneInfo;
use crate::snapshot::record;
use crate::snapshot::value;
use crate::snapshot::value::Availability;
use crate::snapshot::value::FieldScalar;
use crate::snapshot::window_info::WindowInfo;
use crate::target;
use crate::target::ServerIdentity;
use crate::target::SessionId;
use crate::target::WindowId;
use crate::target::WindowLinkIdentity;
use crate::text::TmuxText;
use crate::version::TmuxVersion;

verus! {

/// The fields of the edge behind a window's own, in contracts.
pub open spec fn window_edge() -> Seq<CatalogField> {
    seq![
        CatalogField::SessionId,
        CatalogField::WindowIndex,
        CatalogField::WindowActive,
        CatalogField::WindowActivityFlag,
        CatalogField::WindowBellFlag,
        CatalogField::WindowEndFlag,
        CatalogField::WindowFlags,
        CatalogField::WindowLastFlag,
        CatalogField::WindowLinked,
        CatalogField::WindowMarkedFlag,
        CatalogField::WindowRawFlags,
        CatalogField::WindowSilenceFlag,
        CatalogField::WindowStackIndex,
        CatalogField::WindowStartFlag,
        CatalogField::WindowActiveClients,
        CatalogField::WindowActiveClientsList,
        CatalogField::WindowActiveSessions,
        CatalogField::WindowActiveSessionsList,
        CatalogField::WindowLinkedSessions,
        CatalogField::WindowLinkedSessionsList,
    ]
}

/// The fields of the edge behind a window's own.
fn list_window_edge() -> (fields: Vec<CatalogField>)
    ensures
        fields@ == window_edge(),
{
    vec![
        CatalogField::SessionId,
        CatalogField::WindowIndex,
        CatalogField::WindowActive,
        CatalogField::WindowActivityFlag,
        CatalogField::WindowBellFlag,
        CatalogField::WindowEndFlag,
        CatalogField::WindowFlags,
        CatalogField::WindowLastFlag,
        CatalogField::WindowLinked,
        CatalogField::WindowMarkedFlag,
        CatalogField::WindowRawFlags,
        CatalogField::WindowSilenceFlag,
        CatalogField::WindowStackIndex,
        CatalogField::WindowStartFlag,
        CatalogField::WindowActiveClients,
        CatalogField::WindowActiveClientsList,
        CatalogField::WindowActiveSessions,
        CatalogField::WindowActiveSessionsList,
        CatalogField::WindowLinkedSessions,
        CatalogField::WindowLinkedSessionsList,
    ]
}

/// The fields of the edge behind a pane's own, in contracts.
pub open spec fn pane_edge() -> Seq<CatalogField> {
    seq![
        CatalogField::SessionId,
        CatalogField::WindowId,
        CatalogField::WindowIndex,
    ]
}

/// The fields of the edge behind a pane's own.
fn list_pane_edge() -> (fields: Vec<CatalogField>)
    ensures
        fields@ == pane_edge(),
{
    vec![
        CatalogField::SessionId,
        CatalogField::WindowId,
        CatalogField::WindowIndex,
    ]
}

/// Fields as descriptors.
pub open spec fn described(fields: Seq<CatalogField>) -> Seq<plan::DescriptorV> {
    fields.map_values(|field: CatalogField| plan::DescriptorV::Catalog(field))
}

/// The plan of a listing whose rows are edges, in contracts.
pub open spec fn planned(
    profile: ListProfile,
    version: TmuxVersion,
    of: InfoPlacement,
    edge: Seq<CatalogField>,
) -> Result<plan::PlanV, error::ErrorV> {
    plan::projected(profile, version, plan::info_descriptors(of).skip(1) + described(edge))
}

/// Plan a listing whose rows are edges.
fn plan_edges(
    profile: ListProfile,
    version: &TmuxVersion,
    of: InfoPlacement,
    edge: &Vec<CatalogField>,
) -> (plan: Result<FormatPlan, FormatCodecError>)
    ensures
        match plan {
            Ok(plan) => planned(profile, *version, of, edge@) == Ok::<plan::PlanV, error::ErrorV>(
                plan@,
            ),
            Err(failure) => planned(profile, *version, of, edge@) == Err::<
                plan::PlanV,
                error::ErrorV,
            >(failure@),
        },
{
    let mut requested = list_info_supplements(of);
    let ghost own = plan::descriptor_views(requested@);
    let mut index: usize = 0;
    while index < edge.len()
        invariant
            index <= edge@.len(),
            requested@.len() == own.len() + index,
            forall|i: int| 0 <= i < own.len() ==> (#[trigger] requested@[i])@ == own[i],
            forall|i: int|
                0 <= i < index ==> (#[trigger] requested@[own.len() + i])@
                    == plan::DescriptorV::Catalog(edge@[i]),
        decreases edge@.len() - index,
    {
        requested.push(FormatDescriptor::Catalog(edge[index]));
        index += 1;
    }
    proof {
        let views = plan::descriptor_views(requested@);
        let expected = own + described(edge@);
        assert forall|i: int| 0 <= i < views.len() implies views[i] == expected[i] by {
            if i >= own.len() {
                assert(requested@[own.len() + (i - own.len())]@ == expected[i]);
            }
        }
        assert(views =~= expected);
    }
    FormatPlan::for_descriptors(profile, version, requested.as_slice())
}

/// Plan a listing of windows, with the edge that each row stands for.
///
/// # Errors
///
/// [`FormatCodecErrorKind::OutOfScope`](crate::formats::error::FormatCodecErrorKind)
/// for a field that listings of windows do not report, of which there is none
/// ([`law_projection_plans_exist`]).
pub fn window_projection_plan(version: &TmuxVersion) -> (plan: Result<FormatPlan, FormatCodecError>)
    ensures
        plan is Ok,
        planned(ListProfile::Windows, *version, InfoPlacement::WindowInfo, window_edge()) == Ok::<
            plan::PlanV,
            error::ErrorV,
        >(plan->Ok_0@),
{
    proof {
        law_projection_plans_exist(*version);
    }
    let edge = list_window_edge();
    plan_edges(ListProfile::Windows, version, InfoPlacement::WindowInfo, &edge)
}

/// Plan a listing of panes, with the edge that each row stands for.
///
/// # Errors
///
/// [`FormatCodecErrorKind::OutOfScope`](crate::formats::error::FormatCodecErrorKind)
/// for a field that listings of panes do not report, of which there is none
/// ([`law_projection_plans_exist`]).
pub fn pane_projection_plan(version: &TmuxVersion) -> (plan: Result<FormatPlan, FormatCodecError>)
    ensures
        plan is Ok,
        planned(ListProfile::Panes, *version, InfoPlacement::PaneInfo, pane_edge()) == Ok::<
            plan::PlanV,
            error::ErrorV,
        >(plan->Ok_0@),
{
    proof {
        law_projection_plans_exist(*version);
    }
    let edge = list_pane_edge();
    plan_edges(ListProfile::Panes, version, InfoPlacement::PaneInfo, &edge)
}

/// Listings of windows and panes report every field that a projection reads,
/// whatever the version: there is a plan for each of them.
pub proof fn law_projection_plans_exist(version: TmuxVersion)
    ensures
        planned(
            ListProfile::Windows,
            version,
            InfoPlacement::WindowInfo,
            window_edge(),
        ) is Ok,
        planned(ListProfile::Panes, version, InfoPlacement::PaneInfo, pane_edge()) is Ok,
{
    reveal(CatalogField::describes);
    let windows = plan::info_descriptors(InfoPlacement::WindowInfo).skip(1) + described(
        window_edge(),
    );
    assert forall|i: int| 0 <= i < windows.len() implies plan::admitted(
        ListProfile::Windows,
        #[trigger] windows[i],
    ) by {
        let own = plan::info_descriptors(InfoPlacement::WindowInfo);
        if i < own.len() - 1 {
            assert(windows[i] == own[i + 1]);
            catalog::law_snapshot_fields_describe_their_object(InfoPlacement::WindowInfo, i + 1);
        } else {
            assert(windows[i] == plan::DescriptorV::Catalog(window_edge()[i - (own.len() - 1)]));
        }
    }
    lemma_none_refused(ListProfile::Windows, windows);
    let panes = plan::info_descriptors(InfoPlacement::PaneInfo).skip(1) + described(pane_edge());
    assert forall|i: int| 0 <= i < panes.len() implies plan::admitted(
        ListProfile::Panes,
        #[trigger] panes[i],
    ) by {
        let own = plan::info_descriptors(InfoPlacement::PaneInfo);
        if i < own.len() - 1 {
            assert(panes[i] == own[i + 1]);
            catalog::law_snapshot_fields_describe_their_object(InfoPlacement::PaneInfo, i + 1);
        } else {
            assert(panes[i] == plan::DescriptorV::Catalog(pane_edge()[i - (own.len() - 1)]));
        }
    }
    lemma_none_refused(ListProfile::Panes, panes);
}

proof fn lemma_none_refused(profile: ListProfile, requested: Seq<plan::DescriptorV>)
    requires
        forall|i: int| 0 <= i < requested.len() ==> plan::admitted(profile, #[trigger] requested[i]),
    ensures
        plan::first_refused(profile, requested) is None,
    decreases requested.len(),
{
    if requested.len() > 0 {
        assert forall|i: int| 0 <= i < requested.drop_last().len() implies plan::admitted(
            profile,
            #[trigger] requested.drop_last()[i],
        ) by {
            assert(requested.drop_last()[i] == requested[i]);
        }
        lemma_none_refused(profile, requested.drop_last());
    }
}

/// One edge: a window in a session.
pub struct WindowLink {
    pub identity: WindowLinkIdentity,
    pub window_active: bool,
    pub window_activity_flag: bool,
    pub window_bell_flag: bool,
    pub window_end_flag: bool,
    pub window_flags: TmuxText,
    pub window_last_flag: bool,
    pub window_linked: bool,
    pub window_marked_flag: bool,
    pub window_raw_flags: TmuxText,
    pub window_silence_flag: bool,
    pub window_stack_index: u32,
    pub window_start_flag: bool,
}

/// One edge, in contracts.
#[verifier::ext_equal]
pub ghost struct WindowLinkV {
    pub identity: target::LinkV,
    pub window_active: bool,
    pub window_activity_flag: bool,
    pub window_bell_flag: bool,
    pub window_end_flag: bool,
    pub window_flags: Seq<u8>,
    pub window_last_flag: bool,
    pub window_linked: bool,
    pub window_marked_flag: bool,
    pub window_raw_flags: Seq<u8>,
    pub window_silence_flag: bool,
    pub window_stack_index: u32,
    pub window_start_flag: bool,
}

impl WindowLink {
    /// The edge in contracts.
    pub open spec fn view(&self) -> WindowLinkV {
        WindowLinkV {
            identity: self.identity@,
            window_active: self.window_active,
            window_activity_flag: self.window_activity_flag,
            window_bell_flag: self.window_bell_flag,
            window_end_flag: self.window_end_flag,
            window_flags: self.window_flags@,
            window_last_flag: self.window_last_flag,
            window_linked: self.window_linked,
            window_marked_flag: self.window_marked_flag,
            window_raw_flags: self.window_raw_flags@,
            window_silence_flag: self.window_silence_flag,
            window_stack_index: self.window_stack_index,
            window_start_flag: self.window_start_flag,
        }
    }

    /// The identity of the edge.
    pub fn identity(&self) -> (identity: &WindowLinkIdentity)
        ensures
            *identity == self.identity,
    {
        &self.identity
    }

    /// Report whether the edge is its session's active window.
    ///
    /// Activity belongs to the edge, not the window: one linked window can be
    /// active in one session and inactive in another.
    pub fn is_active(&self) -> (value: bool)
        ensures
            value == self@.window_active,
    {
        self.window_active
    }

    /// Report whether the window is linked into more than one session.
    pub fn is_linked(&self) -> (value: bool)
        ensures
            value == self@.window_linked,
    {
        self.window_linked
    }

    /// Report whether the window has unseen activity in the session.
    pub fn has_activity(&self) -> (value: bool)
        ensures
            value == self@.window_activity_flag,
    {
        self.window_activity_flag
    }

    /// Report whether the window rang a bell in the session.
    pub fn has_bell(&self) -> (value: bool)
        ensures
            value == self@.window_bell_flag,
    {
        self.window_bell_flag
    }

    /// Return the session's most-recently-used ordering for the edge.
    pub fn stack_index(&self) -> (value: u32)
        ensures
            value == self@.window_stack_index,
    {
        self.window_stack_index
    }

    /// Copy the edge.
    pub fn copy(&self) -> (copy: WindowLink)
        ensures
            copy@ == self@,
    {
        WindowLink {
            identity: self.identity.copy(),
            window_active: self.window_active,
            window_activity_flag: self.window_activity_flag,
            window_bell_flag: self.window_bell_flag,
            window_end_flag: self.window_end_flag,
            window_flags: self.window_flags.copy(),
            window_last_flag: self.window_last_flag,
            window_linked: self.window_linked,
            window_marked_flag: self.window_marked_flag,
            window_raw_flags: self.window_raw_flags.copy(),
            window_silence_flag: self.window_silence_flag,
            window_stack_index: self.window_stack_index,
            window_start_flag: self.window_start_flag,
        }
    }
}

impl Clone for WindowLink {
    fn clone(&self) -> (copy: Self)
        ensures
            copy@ == self@,
    {
        self.copy()
    }
}

impl PartialEq for WindowLink {
    fn eq(&self, other: &Self) -> (same: bool) {
        self.identity == other.identity
            && self.window_active == other.window_active
            && self.window_activity_flag == other.window_activity_flag
            && self.window_bell_flag == other.window_bell_flag
            && self.window_end_flag == other.window_end_flag
            && self.window_flags == other.window_flags
            && self.window_last_flag == other.window_last_flag
            && self.window_linked == other.window_linked
            && self.window_marked_flag == other.window_marked_flag
            && self.window_raw_flags == other.window_raw_flags
            && self.window_silence_flag == other.window_silence_flag
            && self.window_stack_index == other.window_stack_index
            && self.window_start_flag == other.window_start_flag
    }
}

impl vstd::std_specs::cmp::PartialEqSpecImpl for WindowLink {
    open spec fn obeys_eq_spec() -> bool {
        true
    }

    open spec fn eq_spec(&self, other: &Self) -> bool {
        self@ == other@
    }
}

impl Eq for WindowLink {

}

/// A window as one row of a listing reports it.
pub struct WindowProjection {
    pub window: WindowInfo,
    pub link: WindowLink,
    pub window_active_clients: u32,
    pub window_active_clients_list: TmuxText,
    pub window_active_sessions: u32,
    pub window_active_sessions_list: TmuxText,
    pub window_linked_sessions: u32,
    pub window_linked_sessions_list: TmuxText,
}

/// A window as one row of a listing reports it, in contracts.
#[verifier::ext_equal]
pub ghost struct WindowProjectionV {
    pub window: record::RecordV,
    pub link: WindowLinkV,
    pub window_active_clients: u32,
    pub window_active_clients_list: Seq<u8>,
    pub window_active_sessions: u32,
    pub window_active_sessions_list: Seq<u8>,
    pub window_linked_sessions: u32,
    pub window_linked_sessions_list: Seq<u8>,
}

impl WindowProjection {
    /// The row in contracts.
    pub open spec fn view(&self) -> WindowProjectionV {
        WindowProjectionV {
            window: self.window@,
            link: self.link@,
            window_active_clients: self.window_active_clients,
            window_active_clients_list: self.window_active_clients_list@,
            window_active_sessions: self.window_active_sessions,
            window_active_sessions_list: self.window_active_sessions_list@,
            window_linked_sessions: self.window_linked_sessions,
            window_linked_sessions_list: self.window_linked_sessions_list@,
        }
    }

    /// The window.
    pub fn window(&self) -> (window: &WindowInfo)
        ensures
            *window == self.window,
    {
        &self.window
    }

    /// The edge.
    pub fn link(&self) -> (link: &WindowLink)
        ensures
            *link == self.link,
    {
        &self.link
    }

    /// Copy the row.
    pub fn copy(&self) -> (copy: WindowProjection)
        ensures
            copy@ == self@,
    {
        WindowProjection {
            window: self.window.copy(),
            link: self.link.copy(),
            window_active_clients: self.window_active_clients,
            window_active_clients_list: self.window_active_clients_list.copy(),
            window_active_sessions: self.window_active_sessions,
            window_active_sessions_list: self.window_active_sessions_list.copy(),
            window_linked_sessions: self.window_linked_sessions,
            window_linked_sessions_list: self.window_linked_sessions_list.copy(),
        }
    }
}

impl Clone for WindowProjection {
    fn clone(&self) -> (copy: Self)
        ensures
            copy@ == self@,
    {
        self.copy()
    }
}

impl PartialEq for WindowProjection {
    fn eq(&self, other: &Self) -> (same: bool) {
        self.window == other.window && self.link == other.link
            && self.window_active_clients == other.window_active_clients
            && self.window_active_clients_list == other.window_active_clients_list
            && self.window_active_sessions == other.window_active_sessions
            && self.window_active_sessions_list == other.window_active_sessions_list
            && self.window_linked_sessions == other.window_linked_sessions
            && self.window_linked_sessions_list == other.window_linked_sessions_list
    }
}

impl vstd::std_specs::cmp::PartialEqSpecImpl for WindowProjection {
    open spec fn obeys_eq_spec() -> bool {
        true
    }

    open spec fn eq_spec(&self, other: &Self) -> bool {
        self@ == other@
    }
}

impl Eq for WindowProjection {

}

/// A pane as one row of a listing reports it.
pub struct PaneProjection {
    pub pane: PaneInfo,
    pub link_identity: WindowLinkIdentity,
}

/// A pane as one row of a listing reports it, in contracts.
#[verifier::ext_equal]
pub ghost struct PaneProjectionV {
    pub pane: record::RecordV,
    pub link_identity: target::LinkV,
}

impl PaneProjection {
    /// The row in contracts.
    pub open spec fn view(&self) -> PaneProjectionV {
        PaneProjectionV { pane: self.pane@, link_identity: self.link_identity@ }
    }

    /// The pane.
    pub fn pane(&self) -> (pane: &PaneInfo)
        ensures
            *pane == self.pane,
    {
        &self.pane
    }

    /// The identity of the edge.
    pub fn link_identity(&self) -> (identity: &WindowLinkIdentity)
        ensures
            *identity == self.link_identity,
    {
        &self.link_identity
    }

    /// Copy the row.
    pub fn copy(&self) -> (copy: PaneProjection)
        ensures
            copy@ == self@,
    {
        PaneProjection { pane: self.pane.copy(), link_identity: self.link_identity.copy() }
    }
}

impl Clone for PaneProjection {
    fn clone(&self) -> (copy: Self)
        ensures
            copy@ == self@,
    {
        self.copy()
    }
}

impl PartialEq for PaneProjection {
    fn eq(&self, other: &Self) -> (same: bool) {
        self.pane == other.pane && self.link_identity == other.link_identity
    }
}

impl vstd::std_specs::cmp::PartialEqSpecImpl for PaneProjection {
    open spec fn obeys_eq_spec() -> bool {
        true
    }

    open spec fn eq_spec(&self, other: &Self) -> bool {
        self@ == other@
    }
}

impl Eq for PaneProjection {

}

/// The values of an edge, every one of which is owed.
pub open spec fn owed(fields: Seq<CatalogField>) -> Seq<hydrator::WantedV> {
    fields.map_values(
        |field: CatalogField|
            hydrator::WantedV { descriptor: plan::DescriptorV::Catalog(field), need: Need::Value },
    )
}

/// List the values of an edge, every one of which is owed.
fn list_owed(fields: &Vec<CatalogField>) -> (wanted: Vec<WantedField>)
    ensures
        hydrator::wanted_views(wanted@) == owed(fields@),
{
    let mut wanted: Vec<WantedField> = Vec::new();
    let mut index: usize = 0;
    while index < fields.len()
        invariant
            index <= fields@.len(),
            wanted@.len() == index,
            forall|i: int| 0 <= i < index ==> (#[trigger] wanted@[i])@ == owed(fields@)[i],
        decreases fields@.len() - index,
    {
        wanted.push(
            WantedField { descriptor: FormatDescriptor::Catalog(fields[index]), need: Need::Value },
        );
        index += 1;
    }
    assert(hydrator::wanted_views(wanted@) =~= owed(fields@));
    wanted
}

/// What a row of edges holds: the values of its object and of its edge.
pub open spec fn row_of(
    profile: ListProfile,
    of: InfoPlacement,
    edge: Seq<CatalogField>,
    plan: plan::PlanV,
    row: plan::RowV,
) -> Result<(record::RecordV, Seq<Availability<value::ScalarV>>), error::ErrorV> {
    if unfit(profile, plan) {
        Err(error::wrong_purpose(plan.profile, row.row))
    } else {
        match record::hydrated(hydrator::WalkV::start(plan, row), of) {
            Err(failure) => Err(failure),
            Ok((record, walk)) => match hydrator::read_all(walk, owed(edge)) {
                Err(failure) => Err(failure),
                Ok((values, walk)) => match walk.unfinished() {
                    Some(failure) => Err(failure),
                    None => Ok((record, values)),
                },
            },
        }
    }
}

/// Whether a plan is not one for the edges of a listing.
pub open spec fn unfit(profile: ListProfile, plan: plan::PlanV) -> bool {
    plan.profile != profile || plan.purpose != PlanPurpose::Projection
}

/// Require a plan for the edges of a listing.
///
/// # Errors
///
/// [`FormatCodecErrorKind::PlanRowMismatch`](crate::formats::error::FormatCodecErrorKind)
/// for any other plan.
fn require_projection_plan(plan: &FormatPlan, profile: ListProfile, row: usize) -> (result: Result<
    (),
    FormatCodecError,
>)
    ensures
        unfit(profile, plan@) ==> result is Err && result->Err_0@ == error::wrong_purpose(
            plan@.profile,
            row as int,
        ),
        !unfit(profile, plan@) ==> result is Ok,
{
    let projection = match plan.purpose() {
        PlanPurpose::Projection => true,
        _ => false,
    };
    if plan.profile() != profile || !projection {
        return Err(FormatCodecError::purpose_mismatch(plan.profile(), row));
    }
    Ok(())
}

/// The window that the values of a row describe.
pub open spec fn window_of(
    server: Seq<u8>,
    window: record::RecordV,
    edge: Seq<Availability<value::ScalarV>>,
) -> WindowProjectionV {
    WindowProjectionV {
        window,
        link: WindowLinkV {
            identity: target::LinkV {
                server,
                session: edge[0]->Available_0->SessionId_0,
                index: edge[1]->Available_0->I32_0,
                window: window.at(CatalogField::WindowId)->Available_0->WindowId_0,
            },
            window_active: edge[2]->Available_0->Bool_0,
            window_activity_flag: edge[3]->Available_0->Bool_0,
            window_bell_flag: edge[4]->Available_0->Bool_0,
            window_end_flag: edge[5]->Available_0->Bool_0,
            window_flags: edge[6]->Available_0->Text_0,
            window_last_flag: edge[7]->Available_0->Bool_0,
            window_linked: edge[8]->Available_0->Bool_0,
            window_marked_flag: edge[9]->Available_0->Bool_0,
            window_raw_flags: edge[10]->Available_0->Text_0,
            window_silence_flag: edge[11]->Available_0->Bool_0,
            window_stack_index: edge[12]->Available_0->U32_0,
            window_start_flag: edge[13]->Available_0->Bool_0,
        },
        window_active_clients: edge[14]->Available_0->U32_0,
        window_active_clients_list: edge[15]->Available_0->Text_0,
        window_active_sessions: edge[16]->Available_0->U32_0,
        window_active_sessions_list: edge[17]->Available_0->Text_0,
        window_linked_sessions: edge[18]->Available_0->U32_0,
        window_linked_sessions_list: edge[19]->Available_0->Text_0,
    }
}

/// The pane that the values of a row describe.
pub open spec fn pane_of(
    server: Seq<u8>,
    pane: record::RecordV,
    edge: Seq<Availability<value::ScalarV>>,
) -> PaneProjectionV {
    PaneProjectionV {
        pane,
        link_identity: target::LinkV {
            server,
            session: edge[0]->Available_0->SessionId_0,
            index: edge[2]->Available_0->I32_0,
            window: edge[1]->Available_0->WindowId_0,
        },
    }
}

/// The window that a row holds.
pub open spec fn projected_window(server: Seq<u8>, plan: plan::PlanV, row: plan::RowV) -> Result<
    WindowProjectionV,
    error::ErrorV,
> {
    match row_of(ListProfile::Windows, InfoPlacement::WindowInfo, window_edge(), plan, row) {
        Err(failure) => Err(failure),
        Ok((window, edge)) => Ok(window_of(server, window, edge)),
    }
}

/// The pane that a row holds.
pub open spec fn projected_pane(server: Seq<u8>, plan: plan::PlanV, row: plan::RowV) -> Result<
    PaneProjectionV,
    error::ErrorV,
> {
    match row_of(ListProfile::Panes, InfoPlacement::PaneInfo, pane_edge(), plan, row) {
        Err(failure) => Err(failure),
        Ok((pane, edge)) => Ok(pane_of(server, pane, edge)),
    }
}

/// Take a value of a known kind.
fn take_bool(found: &Availability<FieldScalar>) -> (value: bool)
    requires
        value::value_view(*found) is Available,
        value::value_view(*found)->Available_0.kind() == DecoderKind::Bool,
    ensures
        value::value_view(*found) == Availability::Available(value::ScalarV::Bool(value)),
{
    match found {
        Availability::Available(FieldScalar::Bool(value)) => *value,
        _ => vstd::pervasive::unreached(),
    }
}

/// Take a value of a known kind.
fn take_u32(found: &Availability<FieldScalar>) -> (value: u32)
    requires
        value::value_view(*found) is Available,
        value::value_view(*found)->Available_0.kind() == DecoderKind::U32,
    ensures
        value::value_view(*found) == Availability::Available(value::ScalarV::U32(value)),
{
    match found {
        Availability::Available(FieldScalar::U32(value)) => *value,
        _ => vstd::pervasive::unreached(),
    }
}

/// Take a value of a known kind.
fn take_i32(found: &Availability<FieldScalar>) -> (value: i32)
    requires
        value::value_view(*found) is Available,
        value::value_view(*found)->Available_0.kind() == DecoderKind::I32,
    ensures
        value::value_view(*found) == Availability::Available(value::ScalarV::I32(value)),
{
    match found {
        Availability::Available(FieldScalar::I32(value)) => *value,
        _ => vstd::pervasive::unreached(),
    }
}

/// Take a value of a known kind.
fn take_session_id(found: &Availability<FieldScalar>) -> (value: SessionId)
    requires
        value::value_view(*found) is Available,
        value::value_view(*found)->Available_0.kind() == DecoderKind::SessionId,
    ensures
        value::value_view(*found) == Availability::Available(value::ScalarV::SessionId(value@)),
{
    match found {
        Availability::Available(FieldScalar::SessionId(value)) => *value,
        _ => vstd::pervasive::unreached(),
    }
}

/// Take a value of a known kind.
fn take_window_id(found: &Availability<FieldScalar>) -> (value: WindowId)
    requires
        value::value_view(*found) is Available,
        value::value_view(*found)->Available_0.kind() == DecoderKind::WindowId,
    ensures
        value::value_view(*found) == Availability::Available(value::ScalarV::WindowId(value@)),
{
    match found {
        Availability::Available(FieldScalar::WindowId(value)) => *value,
        _ => vstd::pervasive::unreached(),
    }
}

/// Take a value of a known kind.
fn take_text(found: &Availability<FieldScalar>) -> (value: TmuxText)
    requires
        value::value_view(*found) is Available,
        value::value_view(*found)->Available_0.kind() == DecoderKind::Text,
    ensures
        value::value_view(*found) == Availability::Available(value::ScalarV::Text(value@)),
{
    match found {
        Availability::Available(FieldScalar::Text(value)) => value.copy(),
        _ => vstd::pervasive::unreached(),
    }
}

/// Whether values are those of an edge: one of each field's kind.
pub open spec fn edge_fits(
    fields: Seq<CatalogField>,
    values: Seq<Availability<value::ScalarV>>,
) -> bool {
    &&& values.len() == fields.len()
    &&& forall|i: int|
        0 <= i < values.len() ==> (#[trigger] values[i]) is Available && values[i]->Available_0.kind()
            == fields[i].decoded_by()
}

/// Read the values of an edge, behind which a row ends.
fn read_edge(walk: &mut RowHydrator<'_, '_>, fields: &Vec<CatalogField>) -> (read: Result<
    Vec<Availability<FieldScalar>>,
    FormatCodecError,
>)
    requires
        old(walk).inside(),
    ensures
        match hydrator::read_all(old(walk)@, owed(fields@)) {
            Err(failure) => read is Err && read->Err_0@ == failure,
            Ok((values, behind)) => match behind.unfinished() {
                Some(failure) => read is Err && read->Err_0@ == failure,
                None => read is Ok && value::value_views(read->Ok_0@) == values && edge_fits(
                    fields@,
                    values,
                ),
            },
        },
{
    let ghost here = walk@;
    let wanted = list_owed(fields);
    let values = match walk.decode_all(&wanted) {
        Ok(values) => values,
        Err(failure) => return Err(failure),
    };
    if let Err(failure) = walk.finish() {
        return Err(failure);
    }
    proof {
        hydrator::lemma_read_shape(here, owed(fields@));
        let views = value::value_views(values@);
        assert forall|i: int| 0 <= i < views.len() implies (#[trigger] views[i]) is Available
            && views[i]->Available_0.kind() == fields@[i].decoded_by() by {
            assert(owed(fields@)[i].descriptor == plan::DescriptorV::Catalog(fields@[i]));
        }
    }
    Ok(values)
}

/// The kinds of the values of a window's edge.
proof fn lemma_window_edge_kinds(values: Seq<Availability<value::ScalarV>>)
    requires
        edge_fits(window_edge(), values),
    ensures
        values.len() == 20,
        values[0] is Available && values[0]->Available_0 is SessionId,
        values[1] is Available && values[1]->Available_0 is I32,
        values[2] is Available && values[2]->Available_0 is Bool,
        values[3] is Available && values[3]->Available_0 is Bool,
        values[4] is Available && values[4]->Available_0 is Bool,
        values[5] is Available && values[5]->Available_0 is Bool,
        values[6] is Available && values[6]->Available_0 is Text,
        values[7] is Available && values[7]->Available_0 is Bool,
        values[8] is Available && values[8]->Available_0 is Bool,
        values[9] is Available && values[9]->Available_0 is Bool,
        values[10] is Available && values[10]->Available_0 is Text,
        values[11] is Available && values[11]->Available_0 is Bool,
        values[12] is Available && values[12]->Available_0 is U32,
        values[13] is Available && values[13]->Available_0 is Bool,
        values[14] is Available && values[14]->Available_0 is U32,
        values[15] is Available && values[15]->Available_0 is Text,
        values[16] is Available && values[16]->Available_0 is U32,
        values[17] is Available && values[17]->Available_0 is Text,
        values[18] is Available && values[18]->Available_0 is U32,
        values[19] is Available && values[19]->Available_0 is Text,
{
    reveal(CatalogField::decoded_by);
    assert(values[0] is Available);
    assert(values[1] is Available);
    assert(values[2] is Available);
    assert(values[3] is Available);
    assert(values[4] is Available);
    assert(values[5] is Available);
    assert(values[6] is Available);
    assert(values[7] is Available);
    assert(values[8] is Available);
    assert(values[9] is Available);
    assert(values[10] is Available);
    assert(values[11] is Available);
    assert(values[12] is Available);
    assert(values[13] is Available);
    assert(values[14] is Available);
    assert(values[15] is Available);
    assert(values[16] is Available);
    assert(values[17] is Available);
    assert(values[18] is Available);
    assert(values[19] is Available);
}

/// Assemble a window from the values of its row.
fn build_window(
    server_identity: &ServerIdentity,
    window: WindowInfo,
    edge: &Vec<Availability<FieldScalar>>,
) -> (projection: WindowProjection)
    requires
        edge_fits(window_edge(), value::value_views(edge@)),
    ensures
        projection@ == window_of(server_identity@, window@, value::value_views(edge@)),
{
    let ghost values = value::value_views(edge@);
    proof {
        lemma_window_edge_kinds(values);
    }
    assert(forall|i: int| 0 <= i < edge@.len() ==> values[i] == value::value_view(#[trigger] edge@[i]));
    let session_id = take_session_id(&edge[0]);
    let window_index: i32 = take_i32(&edge[1]);
    let window_id = *window.window_id();
    WindowProjection {
        window,
        link: WindowLink {
            identity: WindowLinkIdentity::new(
                server_identity.copy(),
                session_id,
                window_index,
                window_id,
            ),
            window_active: take_bool(&edge[2]),
            window_activity_flag: take_bool(&edge[3]),
            window_bell_flag: take_bool(&edge[4]),
            window_end_flag: take_bool(&edge[5]),
            window_flags: take_text(&edge[6]),
            window_last_flag: take_bool(&edge[7]),
            window_linked: take_bool(&edge[8]),
            window_marked_flag: take_bool(&edge[9]),
            window_raw_flags: take_text(&edge[10]),
            window_silence_flag: take_bool(&edge[11]),
            window_stack_index: take_u32(&edge[12]),
            window_start_flag: take_bool(&edge[13]),
        },
        window_active_clients: take_u32(&edge[14]),
        window_active_clients_list: take_text(&edge[15]),
        window_active_sessions: take_u32(&edge[16]),
        window_active_sessions_list: take_text(&edge[17]),
        window_linked_sessions: take_u32(&edge[18]),
        window_linked_sessions_list: take_text(&edge[19]),
    }
}

/// Read the window that a row holds.
///
/// # Errors
///
/// [`FormatCodecErrorKind::PlanRowMismatch`](crate::formats::error::FormatCodecErrorKind)
/// for a plan that is not one for the edges of windows, the first field that
/// does not belong to the plan or does not decode, and a field that is left.
pub fn hydrate_window_projection(
    server_identity: &ServerIdentity,
    plan: &FormatPlan,
    row: &ParsedRow,
) -> (read: Result<WindowProjection, FormatCodecError>)
    ensures
        match projected_window(server_identity@, plan@, row@) {
            Ok(projection) => read is Ok && read->Ok_0@ == projection,
            Err(failure) => read is Err && read->Err_0@ == failure,
        },
{
    if let Err(failure) = require_projection_plan(plan, ListProfile::Windows, row.row()) {
        return Err(failure);
    }
    let mut walk = RowHydrator::new(plan, row);
    let window = match WindowInfo::decode(&mut walk) {
        Ok(window) => window,
        Err(failure) => return Err(failure),
    };
    let fields = list_window_edge();
    match read_edge(&mut walk, &fields) {
        Ok(edge) => Ok(build_window(server_identity, window, &edge)),
        Err(failure) => Err(failure),
    }
}

/// Read the pane that a row holds.
///
/// # Errors
///
/// [`FormatCodecErrorKind::PlanRowMismatch`](crate::formats::error::FormatCodecErrorKind)
/// for a plan that is not one for the edges of panes, the first field that
/// does not belong to the plan or does not decode, and a field that is left.
pub fn hydrate_pane_projection(
    server_identity: &ServerIdentity,
    plan: &FormatPlan,
    row: &ParsedRow,
) -> (read: Result<PaneProjection, FormatCodecError>)
    ensures
        match projected_pane(server_identity@, plan@, row@) {
            Ok(projection) => read is Ok && read->Ok_0@ == projection,
            Err(failure) => read is Err && read->Err_0@ == failure,
        },
{
    if let Err(failure) = require_projection_plan(plan, ListProfile::Panes, row.row()) {
        return Err(failure);
    }
    let mut walk = RowHydrator::new(plan, row);
    let pane = match PaneInfo::decode(&mut walk) {
        Ok(pane) => pane,
        Err(failure) => return Err(failure),
    };
    let fields = list_pane_edge();
    let edge = match read_edge(&mut walk, &fields) {
        Ok(edge) => edge,
        Err(failure) => return Err(failure),
    };
    let ghost values = value::value_views(edge@);
    proof {
        reveal(CatalogField::decoded_by);
        assert(values[0] is Available);
        assert(values[1] is Available);
        assert(values[2] is Available);
    }
    assert(forall|i: int| 0 <= i < edge@.len() ==> values[i] == value::value_view(#[trigger] edge@[i]));
    let session_id = take_session_id(&edge[0]);
    let window_id = take_window_id(&edge[1]);
    let window_index: i32 = take_i32(&edge[2]);
    Ok(
        PaneProjection {
            pane,
            link_identity: WindowLinkIdentity::new(
                server_identity.copy(),
                session_id,
                window_index,
                window_id,
            ),
        },
    )
}

/// The windows that rows hold, or the first failure among them.
pub open spec fn projected_windows(
    server: Seq<u8>,
    plan: plan::PlanV,
    rows: Seq<plan::RowV>,
) -> Result<Seq<WindowProjectionV>, error::ErrorV>
    decreases rows.len(),
{
    if rows.len() == 0 {
        if unfit(ListProfile::Windows, plan) {
            Err(error::wrong_purpose(plan.profile, 0))
        } else {
            Ok(Seq::empty())
        }
    } else if unfit(ListProfile::Windows, plan) {
        Err(error::wrong_purpose(plan.profile, rows[0].row))
    } else {
        match projected_windows(server, plan, rows.drop_last()) {
            Err(failure) => Err(failure),
            Ok(earlier) => match projected_window(server, plan, rows.last()) {
                Err(failure) => Err(failure),
                Ok(projection) => Ok(earlier.push(projection)),
            },
        }
    }
}

proof fn lemma_first_window_failure(
    server: Seq<u8>,
    plan: plan::PlanV,
    rows: Seq<plan::RowV>,
    count: int,
    failure: error::ErrorV,
)
    requires
        0 <= count <= rows.len(),
        !unfit(ListProfile::Windows, plan),
        projected_windows(server, plan, rows.take(count)) == Err::<Seq<WindowProjectionV>, error::ErrorV>(
            failure,
        ),
    ensures
        projected_windows(server, plan, rows) == Err::<Seq<WindowProjectionV>, error::ErrorV>(failure),
    decreases rows.len() - count,
{
    if count < rows.len() {
        let longer = rows.take(count + 1);
        assert(longer.drop_last() =~= rows.take(count));
        lemma_first_window_failure(server, plan, rows, count + 1, failure);
    } else {
        assert(rows.take(count) =~= rows);
    }
}

/// The rows of a list in contracts.
pub open spec fn window_views(projections: Seq<WindowProjection>) -> Seq<WindowProjectionV> {
    projections.map_values(|projection: WindowProjection| projection@)
}

/// Read the windows that rows hold, in their order and without partial results.
///
/// # Errors
///
/// The reasons of [`hydrate_window_projection`], for the first row that has one.
pub fn hydrate_window_projections(
    server_identity: &ServerIdentity,
    plan: &FormatPlan,
    rows: &[ParsedRow],
) -> (read: Result<Vec<WindowProjection>, FormatCodecError>)
    ensures
        match projected_windows(server_identity@, plan@, plan::parsed_views(rows@)) {
            Ok(projections) => read is Ok && window_views(read->Ok_0@) == projections,
            Err(failure) => read is Err && read->Err_0@ == failure,
        },
{
    let ghost views = plan::parsed_views(rows@);
    let first: usize = if rows.len() == 0 {
        0
    } else {
        assert(views[0] == rows@[0]@);
        rows[0].row()
    };
    if let Err(failure) = require_projection_plan(plan, ListProfile::Windows, first) {
        return Err(failure);
    }
    let mut projections: Vec<WindowProjection> = Vec::new();
    let mut index: usize = 0;
    assert(views.take(0) =~= Seq::empty());
    assert(window_views(projections@) =~= Seq::empty());
    while index < rows.len()
        invariant
            index <= rows@.len(),
            !unfit(ListProfile::Windows, plan@),
            views == plan::parsed_views(rows@),
            projected_windows(server_identity@, plan@, views.take(index as int)) == Ok::<
                Seq<WindowProjectionV>,
                error::ErrorV,
            >(window_views(projections@)),
        decreases rows@.len() - index,
    {
        let ghost longer = views.take(index + 1);
        assert(longer.drop_last() =~= views.take(index as int));
        assert(longer.last() == rows@[index as int]@);
        match hydrate_window_projection(server_identity, plan, &rows[index]) {
            Ok(projection) => {
                let ghost before = window_views(projections@);
                projections.push(projection);
                assert(window_views(projections@) =~= before.push(projection@));
            },
            Err(failure) => {
                proof {
                    lemma_first_window_failure(
                        server_identity@,
                        plan@,
                        views,
                        index + 1,
                        failure@,
                    );
                }
                return Err(failure);
            },
        }
        index += 1;
    }
    assert(views.take(rows@.len() as int) =~= views);
    Ok(projections)
}

/// The windows that a listing's output holds. The plan is judged first.
pub open spec fn listed_windows(server: Seq<u8>, plan: plan::PlanV, stdout: Seq<u8>) -> Result<
    Seq<WindowProjectionV>,
    error::ErrorV,
> {
    if unfit(ListProfile::Windows, plan) {
        Err(error::wrong_purpose(plan.profile, 0))
    } else {
        match plan::parsed(plan::selected(plan.planned), stdout) {
            Err(failure) => Err(failure),
            Ok(rows) => projected_windows(server, plan, rows),
        }
    }
}

/// Decode a complete `list-windows` output into ordered rows.
///
/// # Errors
///
/// [`FormatCodecErrorKind::PlanRowMismatch`](crate::formats::error::FormatCodecErrorKind)
/// for a plan that is not one for the edges of windows, then the first row that
/// does not frame, then the first that does not hydrate.
pub fn hydrate_window_projections_from_stdout(
    server_identity: &ServerIdentity,
    plan: &FormatPlan,
    stdout: &[u8],
) -> (read: Result<Vec<WindowProjection>, FormatCodecError>)
    ensures
        match listed_windows(server_identity@, plan@, stdout@) {
            Ok(projections) => read is Ok && window_views(read->Ok_0@) == projections,
            Err(failure) => read is Err && read->Err_0@ == failure,
        },
{
    if let Err(failure) = require_projection_plan(plan, ListProfile::Windows, 0) {
        return Err(failure);
    }
    let rows = match plan.parse_rows(stdout) {
        Ok(rows) => rows,
        Err(failure) => return Err(failure),
    };
    hydrate_window_projections(server_identity, plan, rows.as_slice())
}

/// The panes that rows hold, or the first failure among them.
pub open spec fn projected_panes(
    server: Seq<u8>,
    plan: plan::PlanV,
    rows: Seq<plan::RowV>,
) -> Result<Seq<PaneProjectionV>, error::ErrorV>
    decreases rows.len(),
{
    if rows.len() == 0 {
        if unfit(ListProfile::Panes, plan) {
            Err(error::wrong_purpose(plan.profile, 0))
        } else {
            Ok(Seq::empty())
        }
    } else if unfit(ListProfile::Panes, plan) {
        Err(error::wrong_purpose(plan.profile, rows[0].row))
    } else {
        match projected_panes(server, plan, rows.drop_last()) {
            Err(failure) => Err(failure),
            Ok(earlier) => match projected_pane(server, plan, rows.last()) {
                Err(failure) => Err(failure),
                Ok(projection) => Ok(earlier.push(projection)),
            },
        }
    }
}

proof fn lemma_first_pane_failure(
    server: Seq<u8>,
    plan: plan::PlanV,
    rows: Seq<plan::RowV>,
    count: int,
    failure: error::ErrorV,
)
    requires
        0 <= count <= rows.len(),
        !unfit(ListProfile::Panes, plan),
        projected_panes(server, plan, rows.take(count)) == Err::<Seq<PaneProjectionV>, error::ErrorV>(
            failure,
        ),
    ensures
        projected_panes(server, plan, rows) == Err::<Seq<PaneProjectionV>, error::ErrorV>(failure),
    decreases rows.len() - count,
{
    if count < rows.len() {
        let longer = rows.take(count + 1);
        assert(longer.drop_last() =~= rows.take(count));
        lemma_first_pane_failure(server, plan, rows, count + 1, failure);
    } else {
        assert(rows.take(count) =~= rows);
    }
}

/// The rows of a list in contracts.
pub open spec fn pane_views(projections: Seq<PaneProjection>) -> Seq<PaneProjectionV> {
    projections.map_values(|projection: PaneProjection| projection@)
}

/// Read the panes that rows hold, in their order and without partial results.
///
/// # Errors
///
/// The reasons of [`hydrate_pane_projection`], for the first row that has one.
pub fn hydrate_pane_projections(
    server_identity: &ServerIdentity,
    plan: &FormatPlan,
    rows: &[ParsedRow],
) -> (read: Result<Vec<PaneProjection>, FormatCodecError>)
    ensures
        match projected_panes(server_identity@, plan@, plan::parsed_views(rows@)) {
            Ok(projections) => read is Ok && pane_views(read->Ok_0@) == projections,
            Err(failure) => read is Err && read->Err_0@ == failure,
        },
{
    let ghost views = plan::parsed_views(rows@);
    let first: usize = if rows.len() == 0 {
        0
    } else {
        assert(views[0] == rows@[0]@);
        rows[0].row()
    };
    if let Err(failure) = require_projection_plan(plan, ListProfile::Panes, first) {
        return Err(failure);
    }
    let mut projections: Vec<PaneProjection> = Vec::new();
    let mut index: usize = 0;
    assert(views.take(0) =~= Seq::empty());
    assert(pane_views(projections@) =~= Seq::empty());
    while index < rows.len()
        invariant
            index <= rows@.len(),
            !unfit(ListProfile::Panes, plan@),
            views == plan::parsed_views(rows@),
            projected_panes(server_identity@, plan@, views.take(index as int)) == Ok::<
                Seq<PaneProjectionV>,
                error::ErrorV,
            >(pane_views(projections@)),
        decreases rows@.len() - index,
    {
        let ghost longer = views.take(index + 1);
        assert(longer.drop_last() =~= views.take(index as int));
        assert(longer.last() == rows@[index as int]@);
        match hydrate_pane_projection(server_identity, plan, &rows[index]) {
            Ok(projection) => {
                let ghost before = pane_views(projections@);
                projections.push(projection);
                assert(pane_views(projections@) =~= before.push(projection@));
            },
            Err(failure) => {
                proof {
                    lemma_first_pane_failure(
                        server_identity@,
                        plan@,
                        views,
                        index + 1,
                        failure@,
                    );
                }
                return Err(failure);
            },
        }
        index += 1;
    }
    assert(views.take(rows@.len() as int) =~= views);
    Ok(projections)
}

/// The panes that a listing's output holds. The plan is judged first.
pub open spec fn listed_panes(server: Seq<u8>, plan: plan::PlanV, stdout: Seq<u8>) -> Result<
    Seq<PaneProjectionV>,
    error::ErrorV,
> {
    if unfit(ListProfile::Panes, plan) {
        Err(error::wrong_purpose(plan.profile, 0))
    } else {
        match plan::parsed(plan::selected(plan.planned), stdout) {
            Err(failure) => Err(failure),
            Ok(rows) => projected_panes(server, plan, rows),
        }
    }
}

/// Decode a complete `list-panes` output into ordered rows.
///
/// # Errors
///
/// [`FormatCodecErrorKind::PlanRowMismatch`](crate::formats::error::FormatCodecErrorKind)
/// for a plan that is not one for the edges of panes, then the first row that
/// does not frame, then the first that does not hydrate.
pub fn hydrate_pane_projections_from_stdout(
    server_identity: &ServerIdentity,
    plan: &FormatPlan,
    stdout: &[u8],
) -> (read: Result<Vec<PaneProjection>, FormatCodecError>)
    ensures
        match listed_panes(server_identity@, plan@, stdout@) {
            Ok(projections) => read is Ok && pane_views(read->Ok_0@) == projections,
            Err(failure) => read is Err && read->Err_0@ == failure,
        },
{
    if let Err(failure) = require_projection_plan(plan, ListProfile::Panes, 0) {
        return Err(failure);
    }
    let rows = match plan.parse_rows(stdout) {
        Ok(rows) => rows,
        Err(failure) => return Err(failure),
    };
    hydrate_pane_projections(server_identity, plan, rows.as_slice())
}

/// The values of a window's edge are found by the fields that were asked for:
/// each part of the projection is the value of its own field.
pub proof fn law_window_edges_hold_their_fields(
    server: Seq<u8>,
    window: record::RecordV,
    edge: Seq<Availability<value::ScalarV>>,
    at: int,
)
    requires
        0 <= at < window_edge().len(),
    ensures
        ({
            let row = window_of(server, window, edge);
            let field = window_edge()[at];
            let found = edge[at]->Available_0;
            &&& row.window == window
            &&& row.link.identity.server == server
            &&& row.link.identity.window == window.at(
                CatalogField::WindowId,
            )->Available_0->WindowId_0
            &&& field is SessionId ==> row.link.identity.session == found->SessionId_0
            &&& field is WindowIndex ==> row.link.identity.index == found->I32_0
            &&& field is WindowActive ==> row.link.window_active == found->Bool_0
            &&& field is WindowActivityFlag ==> row.link.window_activity_flag == found->Bool_0
            &&& field is WindowBellFlag ==> row.link.window_bell_flag == found->Bool_0
            &&& field is WindowEndFlag ==> row.link.window_end_flag == found->Bool_0
            &&& field is WindowFlags ==> row.link.window_flags == found->Text_0
            &&& field is WindowLastFlag ==> row.link.window_last_flag == found->Bool_0
            &&& field is WindowLinked ==> row.link.window_linked == found->Bool_0
            &&& field is WindowMarkedFlag ==> row.link.window_marked_flag == found->Bool_0
            &&& field is WindowRawFlags ==> row.link.window_raw_flags == found->Text_0
            &&& field is WindowSilenceFlag ==> row.link.window_silence_flag == found->Bool_0
            &&& field is WindowStackIndex ==> row.link.window_stack_index == found->U32_0
            &&& field is WindowStartFlag ==> row.link.window_start_flag == found->Bool_0
            &&& field is WindowActiveClients ==> row.window_active_clients == found->U32_0
            &&& field is WindowActiveClientsList ==> row.window_active_clients_list
                == found->Text_0
            &&& field is WindowActiveSessions ==> row.window_active_sessions == found->U32_0
            &&& field is WindowActiveSessionsList ==> row.window_active_sessions_list
                == found->Text_0
            &&& field is WindowLinkedSessions ==> row.window_linked_sessions == found->U32_0
            &&& field is WindowLinkedSessionsList ==> row.window_linked_sessions_list
                == found->Text_0
        }),
        window_edge().len() == 20,
        window_edge().no_duplicates(),
{
}

/// The values of a pane's edge are found by the fields that were asked for.
pub proof fn law_pane_edges_hold_their_fields(
    server: Seq<u8>,
    pane: record::RecordV,
    edge: Seq<Availability<value::ScalarV>>,
    at: int,
)
    requires
        0 <= at < pane_edge().len(),
    ensures
        ({
            let row = pane_of(server, pane, edge);
            let field = pane_edge()[at];
            let found = edge[at]->Available_0;
            &&& row.pane == pane
            &&& row.link_identity.server == server
            &&& field is SessionId ==> row.link_identity.session == found->SessionId_0
            &&& field is WindowIndex ==> row.link_identity.index == found->I32_0
            &&& field is WindowId ==> row.link_identity.window == found->WindowId_0
        }),
        pane_edge().len() == 3,
        pane_edge().no_duplicates(),
{
}

/// A listing of windows gives one projection for each row, in their order, and
/// so does a listing of panes.
pub proof fn law_projections_follow_their_rows(
    server: Seq<u8>,
    plan: plan::PlanV,
    rows: Seq<plan::RowV>,
    index: int,
)
    requires
        0 <= index < rows.len(),
    ensures
        projected_windows(server, plan, rows) matches Ok(windows) ==> {
            &&& windows.len() == rows.len()
            &&& projected_window(server, plan, rows[index]) == Ok::<
                WindowProjectionV,
                error::ErrorV,
            >(windows[index])
        },
        projected_panes(server, plan, rows) matches Ok(panes) ==> {
            &&& panes.len() == rows.len()
            &&& projected_pane(server, plan, rows[index]) == Ok::<PaneProjectionV, error::ErrorV>(
                panes[index],
            )
        },
    decreases rows.len(),
{
    reveal_with_fuel(projected_windows, 2);
    reveal_with_fuel(projected_panes, 2);
    let head = rows.drop_last();
    if head.len() > 0 {
        law_projections_follow_their_rows(
            server,
            plan,
            head,
            if index < head.len() { index } else { 0 },
        );
    }
    if index < head.len() {
        assert(head[index] == rows[index]);
    }
}

/// A projection of a row is what its fields give: those of the object behind
/// the identity, in their order, and behind them those of the edge.
pub proof fn law_projections_hold_what_the_fields_give(
    profile: ListProfile,
    of: InfoPlacement,
    edge: Seq<CatalogField>,
    plan: plan::PlanV,
    row: plan::RowV,
    index: int,
)
    requires
        row_of(profile, of, edge, plan, row) is Ok,
        0 <= index < of.count() + edge.len(),
    ensures
        ({
            let (held, values) = row_of(profile, of, edge, plan, row)->Ok_0;
            let count = of.count() as int;
            &&& plan.profile == profile
            &&& plan.purpose is Projection
            &&& held.placement == of
            &&& held.values.len() == count
            &&& values.len() == edge.len()
            &&& plan.planned.len() == count + edge.len()
            &&& index < count ==> plan.planned[index].descriptor == plan::DescriptorV::Catalog(
                of.field(index),
            ) && hydrator::gives(plan.planned[index], row, held.values[index])
            &&& index >= count ==> plan.planned[index].descriptor == plan::DescriptorV::Catalog(
                edge[index - count],
            ) && hydrator::gives(plan.planned[index], row, values[index - count]) && values[index
                - count] is Available
        }),
{
    let walk = hydrator::WalkV::start(plan, row);
    let count = of.count() as int;
    hydrator::lemma_walk_advances(walk, record::wanted(of));
    let behind = hydrator::read_all(walk, record::wanted(of))->Ok_0.1;
    hydrator::lemma_walk_advances(behind, owed(edge));
    let end = hydrator::read_all(behind, owed(edge))->Ok_0.1;
    hydrator::law_walks_are_finished_behind_the_last_field(end);
    if index < count {
        hydrator::law_fields_are_read_in_the_order_of_the_plan(walk, record::wanted(of), index);
    } else {
        hydrator::law_fields_are_read_in_the_order_of_the_plan(behind, owed(edge), index - count);
    }
}

/// Rows that all give a projection give a listing, and the first row that gives
/// none fails it. A plan of another purpose gives nothing of any listing.
pub proof fn law_listings_fail_at_the_first_row(
    server: Seq<u8>,
    plan: plan::PlanV,
    rows: Seq<plan::RowV>,
    index: int,
)
    requires
        0 <= index < rows.len(),
        !unfit(ListProfile::Windows, plan),
    ensures
        (forall|i: int|
            0 <= i < rows.len() ==> projected_window(server, plan, #[trigger] rows[i]) is Ok)
            ==> projected_windows(server, plan, rows) is Ok,
        projected_window(server, plan, rows[index]) is Err && (forall|i: int|
            0 <= i < index ==> projected_window(server, plan, #[trigger] rows[i]) is Ok)
            ==> projected_windows(server, plan, rows) == Err::<
            Seq<WindowProjectionV>,
            error::ErrorV,
        >(projected_window(server, plan, rows[index])->Err_0),
    decreases rows.len(),
{
    reveal_with_fuel(projected_windows, 2);
    let head = rows.drop_last();
    assert forall|i: int| 0 <= i < head.len() implies #[trigger] head[i] == rows[i] by {}
    assert(rows[rows.len() - 1] == rows.last());
    if head.len() > 0 {
        law_listings_fail_at_the_first_row(
            server,
            plan,
            head,
            if index < head.len() { index } else { 0 },
        );
    }
    if forall|i: int|
        0 <= i < rows.len() ==> projected_window(server, plan, #[trigger] rows[i]) is Ok {
        assert forall|i: int| 0 <= i < head.len() implies projected_window(
            server,
            plan,
            #[trigger] head[i],
        ) is Ok by {
            assert(head[i] == rows[i]);
        }
    }
    if forall|i: int|
        0 <= i < index ==> projected_window(server, plan, #[trigger] rows[i]) is Ok {
        assert forall|i: int| 0 <= i < index && i < head.len() implies projected_window(
            server,
            plan,
            #[trigger] head[i],
        ) is Ok by {
            assert(head[i] == rows[i]);
        }
    }
}

/// Rows of panes that all give a projection give a listing, and the first row
/// that gives none fails it.
pub proof fn law_pane_listings_fail_at_the_first_row(
    server: Seq<u8>,
    plan: plan::PlanV,
    rows: Seq<plan::RowV>,
    index: int,
)
    requires
        0 <= index < rows.len(),
        !unfit(ListProfile::Panes, plan),
    ensures
        (forall|i: int|
            0 <= i < rows.len() ==> projected_pane(server, plan, #[trigger] rows[i]) is Ok)
            ==> projected_panes(server, plan, rows) is Ok,
        projected_pane(server, plan, rows[index]) is Err && (forall|i: int|
            0 <= i < index ==> projected_pane(server, plan, #[trigger] rows[i]) is Ok)
            ==> projected_panes(server, plan, rows) == Err::<Seq<PaneProjectionV>, error::ErrorV>(
            projected_pane(server, plan, rows[index])->Err_0,
        ),
    decreases rows.len(),
{
    reveal_with_fuel(projected_panes, 2);
    let head = rows.drop_last();
    assert forall|i: int| 0 <= i < head.len() implies #[trigger] head[i] == rows[i] by {}
    assert(rows[rows.len() - 1] == rows.last());
    if head.len() > 0 {
        law_pane_listings_fail_at_the_first_row(
            server,
            plan,
            head,
            if index < head.len() { index } else { 0 },
        );
    }
    if forall|i: int|
        0 <= i < rows.len() ==> projected_pane(server, plan, #[trigger] rows[i]) is Ok {
        assert forall|i: int| 0 <= i < head.len() implies projected_pane(
            server,
            plan,
            #[trigger] head[i],
        ) is Ok by {
            assert(head[i] == rows[i]);
        }
    }
    if forall|i: int|
        0 <= i < index ==> projected_pane(server, plan, #[trigger] rows[i]) is Ok {
        assert forall|i: int| 0 <= i < index && i < head.len() implies projected_pane(
            server,
            plan,
            #[trigger] head[i],
        ) is Ok by {
            assert(head[i] == rows[i]);
        }
    }
}

/// A plan that was not made to project a listing gives nothing of it, and
/// output that was is parsed by the fields that the plan selects.
pub proof fn law_listings_need_their_own_plan(
    server: Seq<u8>,
    plan: plan::PlanV,
    stdout: Seq<u8>,
)
    ensures
        plan.profile != ListProfile::Windows || !(plan.purpose is Projection) ==> listed_windows(
            server,
            plan,
            stdout,
        ) is Err,
        plan.profile != ListProfile::Panes || !(plan.purpose is Projection) ==> listed_panes(
            server,
            plan,
            stdout,
        ) is Err,
        plan.profile == ListProfile::Windows && plan.purpose is Projection ==> {
            let rows = plan::parsed(plan::selected(plan.planned), stdout);
            &&& rows matches Err(failure) ==> listed_windows(server, plan, stdout) == Err::<
                Seq<WindowProjectionV>,
                error::ErrorV,
            >(failure)
            &&& rows matches Ok(rows) ==> listed_windows(server, plan, stdout)
                == projected_windows(server, plan, rows)
        },
        plan.profile == ListProfile::Panes && plan.purpose is Projection ==> {
            let rows = plan::parsed(plan::selected(plan.planned), stdout);
            &&& rows matches Err(failure) ==> listed_panes(server, plan, stdout) == Err::<
                Seq<PaneProjectionV>,
                error::ErrorV,
            >(failure)
            &&& rows matches Ok(rows) ==> listed_panes(server, plan, stdout) == projected_panes(
                server,
                plan,
                rows,
            )
        },
{
}

} // verus!
