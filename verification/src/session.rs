//! A session of a server.

use vstd::prelude::*;

pub mod new_window;
pub mod operations;
pub mod settings;

use crate::formats::catalog::CatalogField;
use crate::formats::catalog::InfoPlacement;
use crate::query::error::FilterExpressionError;
use crate::query::error::FilterExpressionErrorKind;
use crate::query::filterable::Filterable;
use crate::query::model;
use crate::query::private::Predicate;
use crate::query::schema;
use crate::query::schema::FilterSchema;
use crate::query::schema::FilterSchemaDescriptor;
use crate::snapshot::record;
use crate::snapshot::record::describe;
use crate::snapshot::record::validate_field;
use crate::snapshot::session_info::SessionFields;
use crate::snapshot::session_info::SessionInfo;
use crate::snapshot::value;
use crate::snapshot::value::Availability;
use crate::target;
use crate::target::ServerIdentity;
use crate::target::SessionId;
use crate::text;
use crate::text::render_open_struct;
use crate::text::TmuxText;

verus! {

/// A session of a server. Two handles are equal where they name one session of
/// one server, whatever their snapshots say.
pub struct Session {
    server: ServerIdentity,
    info: SessionInfo,
}

/// A session in contracts.
#[verifier::ext_equal]
pub ghost struct SessionV {
    pub server: Seq<u8>,
    pub info: record::RecordV,
}

/// The sessions of a list in contracts.
pub open spec fn session_views(sessions: Seq<Session>) -> Seq<SessionV> {
    sessions.map_values(|session: Session| session@)
}

/// The identity of a session's snapshot.
pub open spec fn session_number(info: record::RecordV) -> u32 {
    info.at(CatalogField::SessionId)->Available_0->SessionId_0
}

/// The name of a session's snapshot.
pub open spec fn session_name(info: record::RecordV) -> Seq<u8> {
    info.at(CatalogField::SessionName)->Available_0->Text_0
}

impl Session {
    /// The session in contracts.
    pub closed spec fn view(&self) -> SessionV {
        SessionV { server: self.server@, info: self.info@ }
    }

    /// Hold a snapshot of a session.
    pub fn new(server: ServerIdentity, info: SessionInfo) -> (session: Session)
        ensures
            session@ == (SessionV { server: server@, info: info@ }),
    {
        Session { server, info }
    }

    /// The snapshot.
    pub fn info(&self) -> (info: &SessionInfo)
        ensures
            info@ == self@.info,
    {
        &self.info
    }

    /// The server that the session lives on.
    pub fn server_identity(&self) -> (identity: &ServerIdentity)
        ensures
            identity@ == self@.server,
    {
        &self.server
    }

    /// Copy the handle.
    pub fn copy(&self) -> (copy: Session)
        ensures
            copy@ == self@,
    {
        Session { server: self.server.copy(), info: self.info.copy() }
    }

    /// The session's identity.
    pub fn id(&self) -> (value: &SessionId)
        ensures
            value@ == session_number(self@.info),
    {
        self.info.session_id()
    }

    /// The session's name.
    pub fn name(&self) -> (value: &TmuxText)
        ensures
            value@ == session_name(self@.info),
    {
        self.info.session_name()
    }

    /// The session's working directory.
    pub fn path(&self) -> (value: &TmuxText)
        ensures
            self@.info.at(CatalogField::SessionPath) == Availability::Available(
                value::ScalarV::Text(value@),
            ),
    {
        self.info.session_path()
    }

    /// How many windows the session has.
    pub fn window_count(&self) -> (value: u32)
        ensures
            self@.info.at(CatalogField::SessionWindows) == Availability::Available(
                value::ScalarV::U32(value),
            ),
    {
        *self.info.session_windows()
    }

    /// How many clients are attached to the session.
    pub fn attached_client_count(&self) -> (value: u32)
        ensures
            self@.info.at(CatalogField::SessionAttached) == Availability::Available(
                value::ScalarV::U32(value),
            ),
    {
        *self.info.session_attached()
    }

    /// Report whether a client is attached to the session.
    pub fn is_attached(&self) -> (value: bool)
        ensures
            value == attached(self@.info),
    {
        self.attached_client_count() > 0
    }

    /// When the session was created, in seconds since the epoch.
    pub fn created(&self) -> (value: i64)
        ensures
            self@.info.at(CatalogField::SessionCreated) == Availability::Available(
                value::ScalarV::Timestamp(value),
            ),
    {
        *self.info.session_created()
    }

    /// When a client was last attached to the session, if one ever was, in
    /// seconds since the epoch.
    pub fn last_attached(&self) -> (value: Option<i64>)
        ensures
            match value {
                Some(value) => self@.info.at(CatalogField::SessionLastAttached)
                    == Availability::Available(value::ScalarV::Timestamp(value)),
                None => !(self@.info.at(CatalogField::SessionLastAttached) is Available),
            },
    {
        self.info.session_last_attached().copied().available()
    }

    /// A rendering that shows the session's identity only.
    pub fn debug_text(&self) -> (rendering: String)
        ensures
            rendering@ == text::open_rendering(
                "Session"@,
                seq![("id"@, target::id_text('$', session_number(self@.info)))],
            ),
    {
        let mut members: Vec<(&'static str, String)> = Vec::new();
        members.push(("id", self.id().text()));
        assert(text::member_views(members@) =~= seq![
            ("id"@, target::id_text('$', session_number(self@.info))),
        ]);
        render_open_struct("Session", &members)
    }

    /// The session's identity, as tmux spells it.
    pub fn text(&self) -> (text: String)
        ensures
            text@ == target::id_text('$', session_number(self@.info)),
    {
        self.id().text()
    }
}

/// Whether a client is attached to a session.
pub open spec fn attached(info: record::RecordV) -> bool {
    info.at(CatalogField::SessionAttached)->Available_0->U32_0 > 0
}

impl Clone for Session {
    fn clone(&self) -> (copy: Self)
        ensures
            copy@ == self@,
    {
        self.copy()
    }
}

impl PartialEq for Session {
    fn eq(&self, other: &Self) -> (same: bool) {
        self.server == other.server && self.id().same(other.id())
    }
}

impl vstd::std_specs::cmp::PartialEqSpecImpl for Session {
    open spec fn obeys_eq_spec() -> bool {
        true
    }

    open spec fn eq_spec(&self, other: &Self) -> bool {
        self@.server == other@.server && session_number(self@.info) == session_number(other@.info)
    }
}

impl Eq for Session {

}

impl Filterable for Session {
    type Fields = SessionFields<Session>;

    open spec fn target_name() -> Seq<char> {
        "session"@
    }

    open spec fn passes(&self, predicate: model::PredicateV) -> bool {
        record::record_passes(self@.info, predicate)
    }

    open spec fn checked(field: Seq<char>, data: model::DataV) -> (
        Option<FilterExpressionErrorKind>,
        model::DataV,
    ) {
        record::checked_field(InfoPlacement::SessionInfo, field, data)
    }

    fn filter_target() -> (target: &'static str) {
        "session"
    }

    fn filter_fields() -> (fields: Self::Fields)
        ensures
            fields.are_of("session"@),
    {
        SessionFields::for_target("session")
    }

    fn filter_matches(&self, predicate: &Predicate) -> (passes: bool) {
        assert(self.passes(predicate@) == self.info.passes(predicate@));
        self.info.filter_matches(predicate)
    }

    fn filter_validate(predicate: &mut Predicate) -> (result: Result<(), FilterExpressionError>) {
        validate_field(InfoPlacement::SessionInfo, predicate)
    }

    proof fn lemma_settles_again(field: Seq<char>, data: model::DataV) {
        record::lemma_field_settles_again(InfoPlacement::SessionInfo, field, data);
    }

    proof fn lemma_passes_alike(&self, left: model::PredicateV, right: model::PredicateV) {
        record::lemma_record_passes_alike(self@.info, left, right);
    }

    proof fn lemma_settling_keeps_answers(
        &self,
        predicate: model::PredicateV,
        target: Option<Seq<char>>,
    ) {
        record::lemma_known_literals_are_settled(
            InfoPlacement::SessionInfo,
            predicate.field,
            predicate.data,
        );
    }
}

impl FilterSchema for Session {
    open spec fn described() -> Seq<schema::DescriptorV> {
        seq![record::described(InfoPlacement::SessionInfo, "session"@)]
    }

    fn describe() -> (catalog: Vec<FilterSchemaDescriptor>) {
        proof {
            record::lemma_described_is_closed(InfoPlacement::SessionInfo, "session"@);
        }
        let mut catalog: Vec<FilterSchemaDescriptor> = Vec::new();
        catalog.push(describe(InfoPlacement::SessionInfo, "session"));
        assert(schema::catalog_views(catalog@) =~= Self::described());
        catalog
    }
}

/// A session passes and checks a test as its snapshot does.
pub proof fn law_sessions_pass_as_their_snapshot(
    session: Session,
    predicate: model::PredicateV,
    field: Seq<char>,
    data: model::DataV,
)
    ensures
        session.passes(predicate) <==> record::record_passes(session@.info, predicate),
        Session::checked(field, data) == record::checked_field(InfoPlacement::SessionInfo, field, data),
        Session::target_name() == "session"@,
        Session::described() == seq![record::described(InfoPlacement::SessionInfo, "session"@)],
{
}

/// A session is attached exactly where at least one client is attached to it.
pub proof fn law_attached_sessions_have_a_client(info: record::RecordV, count: u32)
    requires
        info.at(CatalogField::SessionAttached) == Availability::Available(
            value::ScalarV::U32(count),
        ),
    ensures
        attached(info) <==> count >= 1,
{
}

} // verus!
