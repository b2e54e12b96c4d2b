//! The snapshot of a session and the handles of its fields.

use vstd::prelude::*;

use crate::formats::catalog;
use crate::formats::catalog::CatalogField;
use crate::formats::catalog::InfoPlacement;
use crate::formats::error;
use crate::formats::error::FormatCodecError;
use crate::formats::plan;
use crate::formats::plan::FormatPlan;
use crate::formats::plan::ParsedRow;
use crate::query::error::FilterExpressionError;
use crate::query::error::FilterExpressionErrorKind;
use crate::query::fields::BoolField;
use crate::query::fields::IntegerField;
use crate::query::fields::TextField;
use crate::query::filterable::Filterable;
use crate::query::model;
use crate::query::private::Predicate;
use crate::query::private::bool_field;
use crate::query::private::integer_field;
use crate::query::private::text_field;
use crate::query::schema;
use crate::query::schema::FilterSchema;
use crate::query::schema::FilterSchemaDescriptor;
use crate::snapshot::record;
use crate::snapshot::record::Record;
use crate::snapshot::record::describe;
use crate::snapshot::record::validate_field;
use crate::snapshot::value;
use crate::snapshot::value::Availability;
use crate::target::SessionId;
use crate::text::TmuxText;

verus! {

/// The snapshot of a session: the fields that tmux reports of it.
pub struct SessionInfo {
    record: Record,
}

/// The outcome of hydration in contracts.
pub open spec fn info_view(read: Result<SessionInfo, FormatCodecError>) -> Result<
    record::RecordV,
    error::ErrorV,
> {
    match read {
        Ok(info) => Ok(info@),
        Err(failure) => Err(failure@),
    }
}

/// The snapshots of a list in contracts.
pub open spec fn info_views(infos: Seq<SessionInfo>) -> Seq<record::RecordV> {
    infos.map_values(|info: SessionInfo| info@)
}

impl SessionInfo {
    /// The snapshot in contracts.
    pub closed spec fn view(&self) -> record::RecordV {
        self.record@
    }

    #[verifier::type_invariant]
    spec fn valid(self) -> bool {
        self.record@.placement == InfoPlacement::SessionInfo
    }

    /// Copy the snapshot.
    pub fn copy(&self) -> (copy: SessionInfo)
        ensures
            copy@ == self@,
    {
        proof {
            use_type_invariant(self);
        }
        SessionInfo { record: self.record.copy() }
    }

    /// Render the snapshot without the bytes of its texts.
    pub fn debug_text(&self) -> (rendering: String)
        ensures
            rendering@ == record::record_rendering("SessionInfo"@, self@),
    {
        self.record.debug_text("SessionInfo")
    }

    /// Return the decoded `session_id` value, the snapshot's identity.
    pub fn session_id(&self) -> (value: &SessionId)
        ensures
            self@.at(CatalogField::SessionId) == Availability::Available(value::ScalarV::SessionId(value@)),
    {
        proof {
            use_type_invariant(self);
            reveal(CatalogField::place);
            reveal(CatalogField::decoded_by);
            reveal(CatalogField::since);
            reveal(CatalogField::when_empty);
            reveal(catalog::session_field);
        }
        self.record.session_id(0)
    }

    /// Return the decoded `session_activity` value.
    pub fn session_activity(&self) -> (value: &i64)
        ensures
            self@.at(CatalogField::SessionActivity) == Availability::Available(value::ScalarV::Timestamp(*value)),
    {
        proof {
            use_type_invariant(self);
            reveal(CatalogField::place);
            reveal(CatalogField::decoded_by);
            reveal(CatalogField::since);
            reveal(CatalogField::when_empty);
            reveal(catalog::session_field);
        }
        self.record.timestamp(1)
    }

    /// Return the decoded `session_attached` value.
    pub fn session_attached(&self) -> (value: &u32)
        ensures
            self@.at(CatalogField::SessionAttached) == Availability::Available(value::ScalarV::U32(*value)),
    {
        proof {
            use_type_invariant(self);
            reveal(CatalogField::place);
            reveal(CatalogField::decoded_by);
            reveal(CatalogField::since);
            reveal(CatalogField::when_empty);
            reveal(catalog::session_field);
        }
        self.record.u32(2)
    }

    /// Return the decoded `session_created` value.
    pub fn session_created(&self) -> (value: &i64)
        ensures
            self@.at(CatalogField::SessionCreated) == Availability::Available(value::ScalarV::Timestamp(*value)),
    {
        proof {
            use_type_invariant(self);
            reveal(CatalogField::place);
            reveal(CatalogField::decoded_by);
            reveal(CatalogField::since);
            reveal(CatalogField::when_empty);
            reveal(catalog::session_field);
        }
        self.record.timestamp(3)
    }

    /// Return the evidence of the `session_last_attached` value.
    pub fn session_last_attached(&self) -> (found: Availability<&i64>)
        ensures
            self@.at(CatalogField::SessionLastAttached) == match found {
                Availability::Unsupported => Availability::Unsupported,
                Availability::Unproven => Availability::Unproven,
                Availability::Absent => Availability::Absent,
                Availability::Available(value) => Availability::Available(
                    value::ScalarV::Timestamp(*value),
                ),
            },
    {
        proof {
            use_type_invariant(self);
            reveal(CatalogField::place);
            reveal(CatalogField::decoded_by);
            reveal(catalog::session_field);
        }
        self.record.timestamp_evidence(4)
    }

    /// Return the decoded `session_many_attached` value.
    pub fn session_many_attached(&self) -> (value: &bool)
        ensures
            self@.at(CatalogField::SessionManyAttached) == Availability::Available(value::ScalarV::Bool(*value)),
    {
        proof {
            use_type_invariant(self);
            reveal(CatalogField::place);
            reveal(CatalogField::decoded_by);
            reveal(CatalogField::since);
            reveal(CatalogField::when_empty);
            reveal(catalog::session_field);
        }
        self.record.bool(5)
    }

    /// Return the decoded `session_name` value.
    pub fn session_name(&self) -> (value: &TmuxText)
        ensures
            self@.at(CatalogField::SessionName) == Availability::Available(value::ScalarV::Text(value@)),
    {
        proof {
            use_type_invariant(self);
            reveal(CatalogField::place);
            reveal(CatalogField::decoded_by);
            reveal(CatalogField::since);
            reveal(CatalogField::when_empty);
            reveal(catalog::session_field);
        }
        self.record.text(6)
    }

    /// Return the decoded `session_path` value.
    pub fn session_path(&self) -> (value: &TmuxText)
        ensures
            self@.at(CatalogField::SessionPath) == Availability::Available(value::ScalarV::Text(value@)),
    {
        proof {
            use_type_invariant(self);
            reveal(CatalogField::place);
            reveal(CatalogField::decoded_by);
            reveal(CatalogField::since);
            reveal(CatalogField::when_empty);
            reveal(catalog::session_field);
        }
        self.record.text(7)
    }

    /// Return the decoded `session_windows` value.
    pub fn session_windows(&self) -> (value: &u32)
        ensures
            self@.at(CatalogField::SessionWindows) == Availability::Available(value::ScalarV::U32(*value)),
    {
        proof {
            use_type_invariant(self);
            reveal(CatalogField::place);
            reveal(CatalogField::decoded_by);
            reveal(CatalogField::since);
            reveal(CatalogField::when_empty);
            reveal(catalog::session_field);
        }
        self.record.u32(8)
    }
}

impl Clone for SessionInfo {
    fn clone(&self) -> (copy: Self)
        ensures
            copy@ == self@,
    {
        self.copy()
    }
}

impl PartialEq for SessionInfo {
    fn eq(&self, other: &Self) -> (same: bool) {
        self.record.same(&other.record)
    }
}

impl vstd::std_specs::cmp::PartialEqSpecImpl for SessionInfo {
    open spec fn obeys_eq_spec() -> bool {
        true
    }

    open spec fn eq_spec(&self, other: &Self) -> bool {
        self@ == other@
    }
}

impl Eq for SessionInfo {

}

/// Read the snapshot of a session from a row.
///
/// # Errors
///
/// [`FormatCodecErrorKind::PlanRowMismatch`](crate::formats::error::FormatCodecErrorKind)
/// for a plan that was not made for snapshots of sessions, the first field that
/// does not belong to the plan or does not decode, and a field that is left.
pub fn hydrate_session_info(plan: &FormatPlan, row: &ParsedRow) -> (read: Result<
    SessionInfo,
    FormatCodecError,
>)
    ensures
        info_view(read) == record::snapshot_of(plan@, row@, InfoPlacement::SessionInfo),
{
    match Record::hydrate(plan, row, InfoPlacement::SessionInfo) {
        Ok(record) => Ok(SessionInfo { record }),
        Err(failure) => Err(failure),
    }
}

/// Decode a complete `list-sessions` output into ordered snapshots.
///
/// # Errors
///
/// The first row that does not frame, then the first that does not hydrate.
pub fn hydrate_session_infos_from_stdout(plan: &FormatPlan, stdout: &[u8]) -> (read: Result<
    Vec<SessionInfo>,
    FormatCodecError,
>)
    ensures
        match record::snapshots_of(plan@, stdout@, InfoPlacement::SessionInfo) {
            Ok(records) => read is Ok && info_views(read->Ok_0@) == records,
            Err(failure) => read is Err && read->Err_0@ == failure,
        },
{
    let rows = match plan.parse_rows(stdout) {
        Ok(rows) => rows,
        Err(failure) => return Err(failure),
    };
    let ghost views = plan::parsed_views(rows@);
    let mut infos: Vec<SessionInfo> = Vec::new();
    let mut index: usize = 0;
    assert(views.take(0) =~= Seq::empty());
    assert(info_views(infos@) =~= Seq::empty());
    while index < rows.len()
        invariant
            index <= rows@.len(),
            views == plan::parsed_views(rows@),
            record::all_of(plan@, views.take(index as int), InfoPlacement::SessionInfo) == Ok::<
                Seq<record::RecordV>,
                error::ErrorV,
            >(info_views(infos@)),
            record::snapshots_of(plan@, stdout@, InfoPlacement::SessionInfo) == record::all_of(
                plan@,
                views,
                InfoPlacement::SessionInfo,
            ),
        decreases rows@.len() - index,
    {
        let ghost longer = views.take(index + 1);
        assert(longer.drop_last() =~= views.take(index as int));
        assert(longer.last() == rows@[index as int]@);
        match hydrate_session_info(plan, &rows[index]) {
            Ok(info) => {
                let ghost before = info_views(infos@);
                infos.push(info);
                assert(info_views(infos@) =~= before.push(info@));
            },
            Err(failure) => {
                proof {
                    record::lemma_first_failure(
                        plan@,
                        views,
                        InfoPlacement::SessionInfo,
                        index + 1,
                        failure@,
                    );
                }
                return Err(failure);
            },
        }
        index += 1;
    }
    assert(views.take(rows@.len() as int) =~= views);
    Ok(infos)
}

/// Typed filter field handles for a `session`.
///
/// The type parameter names what an expression built from these handles
/// matches. Every field is named after the tmux format it reads.
pub struct SessionFields<Target> {
    /// The `session_id` field.
    pub session_id: TextField<Target>,
    /// The `session_activity` field.
    pub session_activity: IntegerField<Target, i64>,
    /// The `session_attached` field.
    pub session_attached: IntegerField<Target, u32>,
    /// The `session_created` field.
    pub session_created: IntegerField<Target, i64>,
    /// The `session_last_attached` field.
    pub session_last_attached: IntegerField<Target, i64>,
    /// The `session_many_attached` field.
    pub session_many_attached: BoolField<Target>,
    /// The `session_name` field.
    pub session_name: TextField<Target>,
    /// The `session_path` field.
    pub session_path: TextField<Target>,
    /// The `session_windows` field.
    pub session_windows: IntegerField<Target, u32>,
}

impl<Target> SessionFields<Target> {
    /// Whether each handle names its field of a target.
    pub open spec fn are_of(&self, target: Seq<char>) -> bool {
        &&& self.session_id.id().names(target, "session_id"@)
        &&& self.session_activity.id().names(target, "session_activity"@)
        &&& self.session_attached.id().names(target, "session_attached"@)
        &&& self.session_created.id().names(target, "session_created"@)
        &&& self.session_last_attached.id().names(target, "session_last_attached"@)
        &&& self.session_many_attached.id().names(target, "session_many_attached"@)
        &&& self.session_name.id().names(target, "session_name"@)
        &&& self.session_path.id().names(target, "session_path"@)
        &&& self.session_windows.id().names(target, "session_windows"@)
    }

    /// Build handles bound to one filter target name.
    pub fn for_target(target: &'static str) -> (fields: Self)
        ensures
            fields.are_of(target@),
    {
        SessionFields {
            session_id: text_field(target, "session_id"),
            session_activity: integer_field(target, "session_activity"),
            session_attached: integer_field(target, "session_attached"),
            session_created: integer_field(target, "session_created"),
            session_last_attached: integer_field(target, "session_last_attached"),
            session_many_attached: bool_field(target, "session_many_attached"),
            session_name: text_field(target, "session_name"),
            session_path: text_field(target, "session_path"),
            session_windows: integer_field(target, "session_windows"),
        }
    }

    /// Render which set of handles is being held.
    pub fn debug_text(&self) -> (rendering: String)
        ensures
            rendering@ == "SessionFields { .. }"@,
    {
        "SessionFields { .. }".to_owned()
    }
}

impl Filterable for SessionInfo {
    type Fields = SessionFields<SessionInfo>;

    open spec fn target_name() -> Seq<char> {
        "session"@
    }

    open spec fn passes(&self, predicate: model::PredicateV) -> bool {
        record::record_passes(self@, predicate)
    }

    open spec fn checked(field: Seq<char>, data: model::DataV) -> (
        Option<FilterExpressionErrorKind>,
        model::DataV,
    ) {
        record::checked_field(InfoPlacement::SessionInfo, field, data)
    }

    fn filter_target() -> (target: &'static str) {
        "session"
    }

    fn filter_fields() -> (fields: Self::Fields)
        ensures
            fields.are_of("session"@),
    {
        SessionFields::for_target("session")
    }

    fn filter_matches(&self, predicate: &Predicate) -> (passes: bool) {
        assert(self.passes(predicate@) == record::record_passes(self@, predicate@));
        self.record.matches(predicate)
    }

    fn filter_validate(predicate: &mut Predicate) -> (result: Result<(), FilterExpressionError>) {
        validate_field(InfoPlacement::SessionInfo, predicate)
    }

    proof fn lemma_settles_again(field: Seq<char>, data: model::DataV) {
        record::lemma_field_settles_again(InfoPlacement::SessionInfo, field, data);
    }

    proof fn lemma_passes_alike(&self, left: model::PredicateV, right: model::PredicateV) {
        record::lemma_record_passes_alike(self@, left, right);
    }

    proof fn lemma_settling_keeps_answers(
        &self,
        predicate: model::PredicateV,
        target: Option<Seq<char>>,
    ) {
        record::lemma_known_literals_are_settled(
            InfoPlacement::SessionInfo,
            predicate.field,
            predicate.data,
        );
    }
}

impl FilterSchema for SessionInfo {
    open spec fn described() -> Seq<schema::DescriptorV> {
        seq![record::described(InfoPlacement::SessionInfo, "session"@)]
    }

    fn describe() -> (catalog: Vec<FilterSchemaDescriptor>) {
        proof {
            record::lemma_described_is_closed(InfoPlacement::SessionInfo, "session"@);
        }
        let mut catalog: Vec<FilterSchemaDescriptor> = Vec::new();
        catalog.push(describe(InfoPlacement::SessionInfo, "session"));
        assert(schema::catalog_views(catalog@) =~= Self::described());
        catalog
    }
}

/// A snapshot of a session passes and checks a test by the values that it holds.
pub proof fn law_session_snapshots_pass_by_their_values(
    info: SessionInfo,
    predicate: model::PredicateV,
    field: Seq<char>,
    data: model::DataV,
)
    ensures
        info.passes(predicate) <==> record::record_passes(info@, predicate),
        SessionInfo::checked(field, data) == record::checked_field(InfoPlacement::SessionInfo, field, data),
        SessionInfo::target_name() == "session"@,
        SessionInfo::described() == seq![record::described(InfoPlacement::SessionInfo, "session"@)],
{
}

} // verus!
