//! The snapshot of a client and the handles of its fields.

use vstd::prelude::*;

use crate::formats::catalog;
use crate::formats::catalog::CatalogField;
use crate::formats::catalog::InfoPlacement;
use crate::formats::error;
use crate::formats::error::FormatCodecError;
use crate::formats::plan;
use crate::formats::plan::FormatPlan;
use crate::formats::plan::ParsedRow;
use crate::query::error::FilterExpressionError;
use crate::query::error::FilterExpressionErrorKind;
use crate::query::fields::BoolField;
use crate::query::fields::IntegerField;
use crate::query::fields::TextField;
use crate::query::filterable::Filterable;
use crate::query::model;
use crate::query::private::Predicate;
use crate::query::private::bool_field;
use crate::query::private::integer_field;
use crate::query::private::text_field;
use crate::query::schema;
use crate::query::schema::FilterSchema;
use crate::query::schema::FilterSchemaDescriptor;
use crate::snapshot::record;
use crate::snapshot::record::Record;
use crate::snapshot::record::describe;
use crate::snapshot::record::validate_field;
use crate::snapshot::value;
use crate::snapshot::value::Availability;
use crate::text::TmuxText;

verus! {

/// The snapshot of a client: the fields that tmux reports of it.
pub struct ClientInfo {
    record: Record,
}

/// The outcome of hydration in contracts.
pub open spec fn info_view(read: Result<ClientInfo, FormatCodecError>) -> Result<
    record::RecordV,
    error::ErrorV,
> {
    match read {
        Ok(info) => Ok(info@),
        Err(failure) => Err(failure@),
    }
}

/// The snapshots of a list in contracts.
pub open spec fn info_views(infos: Seq<ClientInfo>) -> Seq<record::RecordV> {
    infos.map_values(|info: ClientInfo| info@)
}

impl ClientInfo {
    /// The snapshot in contracts.
    pub closed spec fn view(&self) -> record::RecordV {
        self.record@
    }

    #[verifier::type_invariant]
    spec fn valid(self) -> bool {
        self.record@.placement == InfoPlacement::ClientInfo
    }

    /// Copy the snapshot.
    pub fn copy(&self) -> (copy: ClientInfo)
        ensures
            copy@ == self@,
    {
        proof {
            use_type_invariant(self);
        }
        ClientInfo { record: self.record.copy() }
    }

    /// Render the snapshot without the bytes of its texts.
    pub fn debug_text(&self) -> (rendering: String)
        ensures
            rendering@ == record::record_rendering("ClientInfo"@, self@),
    {
        self.record.debug_text("ClientInfo")
    }

    /// Return the decoded `client_name` value, the snapshot's identity.
    pub fn client_name(&self) -> (value: &TmuxText)
        ensures
            self@.at(CatalogField::ClientName) == Availability::Available(value::ScalarV::Text(value@)),
    {
        proof {
            use_type_invariant(self);
            reveal(CatalogField::place);
            reveal(CatalogField::decoded_by);
            reveal(CatalogField::since);
            reveal(CatalogField::when_empty);
            reveal(catalog::client_field);
        }
        self.record.text(0)
    }

    /// Return the decoded `client_activity` value.
    pub fn client_activity(&self) -> (value: &i64)
        ensures
            self@.at(CatalogField::ClientActivity) == Availability::Available(value::ScalarV::Timestamp(*value)),
    {
        proof {
            use_type_invariant(self);
            reveal(CatalogField::place);
            reveal(CatalogField::decoded_by);
            reveal(CatalogField::since);
            reveal(CatalogField::when_empty);
            reveal(catalog::client_field);
        }
        self.record.timestamp(1)
    }

    /// Return the evidence of the `client_cell_height` value.
    pub fn client_cell_height(&self) -> (found: Availability<&u32>)
        ensures
            self@.at(CatalogField::ClientCellHeight) == match found {
                Availability::Unsupported => Availability::Unsupported,
                Availability::Unproven => Availability::Unproven,
                Availability::Absent => Availability::Absent,
                Availability::Available(value) => Availability::Available(
                    value::ScalarV::U32(*value),
                ),
            },
    {
        proof {
            use_type_invariant(self);
            reveal(CatalogField::place);
            reveal(CatalogField::decoded_by);
            reveal(catalog::client_field);
        }
        self.record.u32_evidence(2)
    }

    /// Return the evidence of the `client_cell_width` value.
    pub fn client_cell_width(&self) -> (found: Availability<&u32>)
        ensures
            self@.at(CatalogField::ClientCellWidth) == match found {
                Availability::Unsupported => Availability::Unsupported,
                Availability::Unproven => Availability::Unproven,
                Availability::Absent => Availability::Absent,
                Availability::Available(value) => Availability::Available(
                    value::ScalarV::U32(*value),
                ),
            },
    {
        proof {
            use_type_invariant(self);
            reveal(CatalogField::place);
            reveal(CatalogField::decoded_by);
            reveal(catalog::client_field);
        }
        self.record.u32_evidence(3)
    }

    /// Return the decoded `client_control_mode` value.
    pub fn client_control_mode(&self) -> (value: &bool)
        ensures
            self@.at(CatalogField::ClientControlMode) == Availability::Available(value::ScalarV::Bool(*value)),
    {
        proof {
            use_type_invariant(self);
            reveal(CatalogField::place);
            reveal(CatalogField::decoded_by);
            reveal(CatalogField::since);
            reveal(CatalogField::when_empty);
            reveal(catalog::client_field);
        }
        self.record.bool(4)
    }

    /// Return the decoded `client_created` value.
    pub fn client_created(&self) -> (value: &i64)
        ensures
            self@.at(CatalogField::ClientCreated) == Availability::Available(value::ScalarV::Timestamp(*value)),
    {
        proof {
            use_type_invariant(self);
            reveal(CatalogField::place);
            reveal(CatalogField::decoded_by);
            reveal(CatalogField::since);
            reveal(CatalogField::when_empty);
            reveal(catalog::client_field);
        }
        self.record.timestamp(5)
    }

    /// Return the decoded `client_discarded` value.
    pub fn client_discarded(&self) -> (value: &u64)
        ensures
            self@.at(CatalogField::ClientDiscarded) == Availability::Available(value::ScalarV::U64(*value)),
    {
        proof {
            use_type_invariant(self);
            reveal(CatalogField::place);
            reveal(CatalogField::decoded_by);
            reveal(CatalogField::since);
            reveal(CatalogField::when_empty);
            reveal(catalog::client_field);
        }
        self.record.u64(6)
    }

    /// Return the decoded `client_flags` value.
    pub fn client_flags(&self) -> (value: &TmuxText)
        ensures
            self@.at(CatalogField::ClientFlags) == Availability::Available(value::ScalarV::Text(value@)),
    {
        proof {
            use_type_invariant(self);
            reveal(CatalogField::place);
            reveal(CatalogField::decoded_by);
            reveal(CatalogField::since);
            reveal(CatalogField::when_empty);
            reveal(catalog::client_field);
        }
        self.record.text(7)
    }

    /// Return the evidence of the `client_height` value.
    pub fn client_height(&self) -> (found: Availability<&u32>)
        ensures
            self@.at(CatalogField::ClientHeight) == match found {
                Availability::Unsupported => Availability::Unsupported,
                Availability::Unproven => Availability::Unproven,
                Availability::Absent => Availability::Absent,
                Availability::Available(value) => Availability::Available(
                    value::ScalarV::U32(*value),
                ),
            },
    {
        proof {
            use_type_invariant(self);
            reveal(CatalogField::place);
            reveal(CatalogField::decoded_by);
            reveal(catalog::client_field);
        }
        self.record.u32_evidence(8)
    }

    /// Return the decoded `client_key_table` value.
    pub fn client_key_table(&self) -> (value: &TmuxText)
        ensures
            self@.at(CatalogField::ClientKeyTable) == Availability::Available(value::ScalarV::Text(value@)),
    {
        proof {
            use_type_invariant(self);
            reveal(CatalogField::place);
            reveal(CatalogField::decoded_by);
            reveal(CatalogField::since);
            reveal(CatalogField::when_empty);
            reveal(catalog::client_field);
        }
        self.record.text(9)
    }

    /// Return the decoded `client_pid` value.
    pub fn client_pid(&self) -> (value: &u32)
        ensures
            self@.at(CatalogField::ClientPid) == Availability::Available(value::ScalarV::U32(*value)),
    {
        proof {
            use_type_invariant(self);
            reveal(CatalogField::place);
            reveal(CatalogField::decoded_by);
            reveal(CatalogField::since);
            reveal(CatalogField::when_empty);
            reveal(catalog::client_field);
        }
        self.record.u32(10)
    }

    /// Return the decoded `client_prefix` value.
    pub fn client_prefix(&self) -> (value: &bool)
        ensures
            self@.at(CatalogField::ClientPrefix) == Availability::Available(value::ScalarV::Bool(*value)),
    {
        proof {
            use_type_invariant(self);
            reveal(CatalogField::place);
            reveal(CatalogField::decoded_by);
            reveal(CatalogField::since);
            reveal(CatalogField::when_empty);
            reveal(catalog::client_field);
        }
        self.record.bool(11)
    }

    /// Return the decoded `client_readonly` value.
    pub fn client_readonly(&self) -> (value: &bool)
        ensures
            self@.at(CatalogField::ClientReadonly) == Availability::Available(value::ScalarV::Bool(*value)),
    {
        proof {
            use_type_invariant(self);
            reveal(CatalogField::place);
            reveal(CatalogField::decoded_by);
            reveal(CatalogField::since);
            reveal(CatalogField::when_empty);
            reveal(catalog::client_field);
        }
        self.record.bool(12)
    }

    /// Return the decoded `client_termfeatures` value.
    pub fn client_termfeatures(&self) -> (value: &TmuxText)
        ensures
            self@.at(CatalogField::ClientTermfeatures) == Availability::Available(value::ScalarV::Text(value@)),
    {
        proof {
            use_type_invariant(self);
            reveal(CatalogField::place);
            reveal(CatalogField::decoded_by);
            reveal(CatalogField::since);
            reveal(CatalogField::when_empty);
            reveal(catalog::client_field);
        }
        self.record.text(13)
    }

    /// Return the decoded `client_termname` value.
    pub fn client_termname(&self) -> (value: &TmuxText)
        ensures
            self@.at(CatalogField::ClientTermname) == Availability::Available(value::ScalarV::Text(value@)),
    {
        proof {
            use_type_invariant(self);
            reveal(CatalogField::place);
            reveal(CatalogField::decoded_by);
            reveal(CatalogField::since);
            reveal(CatalogField::when_empty);
            reveal(catalog::client_field);
        }
        self.record.text(14)
    }

    /// Return the decoded `client_termtype` value.
    pub fn client_termtype(&self) -> (value: &TmuxText)
        ensures
            self@.at(CatalogField::ClientTermtype) == Availability::Available(value::ScalarV::Text(value@)),
    {
        proof {
            use_type_invariant(self);
            reveal(CatalogField::place);
            reveal(CatalogField::decoded_by);
            reveal(CatalogField::since);
            reveal(CatalogField::when_empty);
            reveal(catalog::client_field);
        }
        self.record.text(15)
    }

    /// Return the decoded `client_tty` value.
    pub fn client_tty(&self) -> (value: &TmuxText)
        ensures
            self@.at(CatalogField::ClientTty) == Availability::Available(value::ScalarV::Text(value@)),
    {
        proof {
            use_type_invariant(self);
            reveal(CatalogField::place);
            reveal(CatalogField::decoded_by);
            reveal(CatalogField::since);
            reveal(CatalogField::when_empty);
            reveal(catalog::client_field);
        }
        self.record.text(16)
    }

    /// Return the evidence of the `client_uid` value.
    pub fn client_uid(&self) -> (found: Availability<&u32>)
        ensures
            self@.at(CatalogField::ClientUid) == match found {
                Availability::Unsupported => Availability::Unsupported,
                Availability::Unproven => Availability::Unproven,
                Availability::Absent => Availability::Absent,
                Availability::Available(value) => Availability::Available(
                    value::ScalarV::U32(*value),
                ),
            },
    {
        proof {
            use_type_invariant(self);
            reveal(CatalogField::place);
            reveal(CatalogField::decoded_by);
            reveal(catalog::client_field);
        }
        self.record.u32_evidence(17)
    }

    /// Return the evidence of the `client_user` value.
    pub fn client_user(&self) -> (found: Availability<&TmuxText>)
        ensures
            self@.at(CatalogField::ClientUser) == match found {
                Availability::Unsupported => Availability::Unsupported,
                Availability::Unproven => Availability::Unproven,
                Availability::Absent => Availability::Absent,
                Availability::Available(value) => Availability::Available(
                    value::ScalarV::Text(value@),
                ),
            },
    {
        proof {
            use_type_invariant(self);
            reveal(CatalogField::place);
            reveal(CatalogField::decoded_by);
            reveal(catalog::client_field);
        }
        self.record.text_evidence(18)
    }

    /// Return the decoded `client_utf8` value.
    pub fn client_utf8(&self) -> (value: &bool)
        ensures
            self@.at(CatalogField::ClientUtf8) == Availability::Available(value::ScalarV::Bool(*value)),
    {
        proof {
            use_type_invariant(self);
            reveal(CatalogField::place);
            reveal(CatalogField::decoded_by);
            reveal(CatalogField::since);
            reveal(CatalogField::when_empty);
            reveal(catalog::client_field);
        }
        self.record.bool(19)
    }

    /// Return the decoded `client_width` value.
    pub fn client_width(&self) -> (value: &u32)
        ensures
            self@.at(CatalogField::ClientWidth) == Availability::Available(value::ScalarV::U32(*value)),
    {
        proof {
            use_type_invariant(self);
            reveal(CatalogField::place);
            reveal(CatalogField::decoded_by);
            reveal(CatalogField::since);
            reveal(CatalogField::when_empty);
            reveal(catalog::client_field);
        }
        self.record.u32(20)
    }

    /// Return the decoded `client_written` value.
    pub fn client_written(&self) -> (value: &u64)
        ensures
            self@.at(CatalogField::ClientWritten) == Availability::Available(value::ScalarV::U64(*value)),
    {
        proof {
            use_type_invariant(self);
            reveal(CatalogField::place);
            reveal(CatalogField::decoded_by);
            reveal(CatalogField::since);
            reveal(CatalogField::when_empty);
            reveal(catalog::client_field);
        }
        self.record.u64(21)
    }
}

impl Clone for ClientInfo {
    fn clone(&self) -> (copy: Self)
        ensures
            copy@ == self@,
    {
        self.copy()
    }
}

impl PartialEq for ClientInfo {
    fn eq(&self, other: &Self) -> (same: bool) {
        self.record.same(&other.record)
    }
}

impl vstd::std_specs::cmp::PartialEqSpecImpl for ClientInfo {
    open spec fn obeys_eq_spec() -> bool {
        true
    }

    open spec fn eq_spec(&self, other: &Self) -> bool {
        self@ == other@
    }
}

impl Eq for ClientInfo {

}

/// Read the snapshot of a client from a row.
///
/// # Errors
///
/// [`FormatCodecErrorKind::PlanRowMismatch`](crate::formats::error::FormatCodecErrorKind)
/// for a plan that was not made for snapshots of clients, the first field that
/// does not belong to the plan or does not decode, and a field that is left.
pub fn hydrate_client_info(plan: &FormatPlan, row: &ParsedRow) -> (read: Result<
    ClientInfo,
    FormatCodecError,
>)
    ensures
        info_view(read) == record::snapshot_of(plan@, row@, InfoPlacement::ClientInfo),
{
    match Record::hydrate(plan, row, InfoPlacement::ClientInfo) {
        Ok(record) => Ok(ClientInfo { record }),
        Err(failure) => Err(failure),
    }
}

/// Decode a complete `list-clients` output into ordered snapshots.
///
/// # Errors
///
/// The first row that does not frame, then the first that does not hydrate.
pub fn hydrate_client_infos_from_stdout(plan: &FormatPlan, stdout: &[u8]) -> (read: Result<
    Vec<ClientInfo>,
    FormatCodecError,
>)
    ensures
        match record::snapshots_of(plan@, stdout@, InfoPlacement::ClientInfo) {
            Ok(records) => read is Ok && info_views(read->Ok_0@) == records,
            Err(failure) => read is Err && read->Err_0@ == failure,
        },
{
    let rows = match plan.parse_rows(stdout) {
        Ok(rows) => rows,
        Err(failure) => return Err(failure),
    };
    let ghost views = plan::parsed_views(rows@);
    let mut infos: Vec<ClientInfo> = Vec::new();
    let mut index: usize = 0;
    assert(views.take(0) =~= Seq::empty());
    assert(info_views(infos@) =~= Seq::empty());
    while index < rows.len()
        invariant
            index <= rows@.len(),
            views == plan::parsed_views(rows@),
            record::all_of(plan@, views.take(index as int), InfoPlacement::ClientInfo) == Ok::<
                Seq<record::RecordV>,
                error::ErrorV,
            >(info_views(infos@)),
            record::snapshots_of(plan@, stdout@, InfoPlacement::ClientInfo) == record::all_of(
                plan@,
                views,
                InfoPlacement::ClientInfo,
            ),
        decreases rows@.len() - index,
    {
        let ghost longer = views.take(index + 1);
        assert(longer.drop_last() =~= views.take(index as int));
        assert(longer.last() == rows@[index as int]@);
        match hydrate_client_info(plan, &rows[index]) {
            Ok(info) => {
                let ghost before = info_views(infos@);
                infos.push(info);
                assert(info_views(infos@) =~= before.push(info@));
            },
            Err(failure) => {
                proof {
                    record::lemma_first_failure(
                        plan@,
                        views,
                        InfoPlacement::ClientInfo,
                        index + 1,
                        failure@,
                    );
                }
                return Err(failure);
            },
        }
        index += 1;
    }
    assert(views.take(rows@.len() as int) =~= views);
    Ok(infos)
}

/// Typed filter field handles for a `client`.
///
/// The type parameter names what an expression built from these handles
/// matches. Every field is named after the tmux format it reads.
pub struct ClientFields<Target> {
    /// The `client_name` field.
    pub client_name: TextField<Target>,
    /// The `client_activity` field.
    pub client_activity: IntegerField<Target, i64>,
    /// The `client_cell_height` field.
    pub client_cell_height: IntegerField<Target, u32>,
    /// The `client_cell_width` field.
    pub client_cell_width: IntegerField<Target, u32>,
    /// The `client_control_mode` field.
    pub client_control_mode: BoolField<Target>,
    /// The `client_created` field.
    pub client_created: IntegerField<Target, i64>,
    /// The `client_discarded` field.
    pub client_discarded: IntegerField<Target, u64>,
    /// The `client_flags` field.
    pub client_flags: TextField<Target>,
    /// The `client_height` field.
    pub client_height: IntegerField<Target, u32>,
    /// The `client_key_table` field.
    pub client_key_table: TextField<Target>,
    /// The `client_pid` field.
    pub client_pid: IntegerField<Target, u32>,
    /// The `client_prefix` field.
    pub client_prefix: BoolField<Target>,
    /// The `client_readonly` field.
    pub client_readonly: BoolField<Target>,
    /// The `client_termfeatures` field.
    pub client_termfeatures: TextField<Target>,
    /// The `client_termname` field.
    pub client_termname: TextField<Target>,
    /// The `client_termtype` field.
    pub client_termtype: TextField<Target>,
    /// The `client_tty` field.
    pub client_tty: TextField<Target>,
    /// The `client_uid` field.
    pub client_uid: IntegerField<Target, u32>,
    /// The `client_user` field.
    pub client_user: TextField<Target>,
    /// The `client_utf8` field.
    pub client_utf8: BoolField<Target>,
    /// The `client_width` field.
    pub client_width: IntegerField<Target, u32>,
    /// The `client_written` field.
    pub client_written: IntegerField<Target, u64>,
}

impl<Target> ClientFields<Target> {
    /// Whether each handle names its field of a target.
    pub open spec fn are_of(&self, target: Seq<char>) -> bool {
        &&& self.client_name.id().names(target, "client_name"@)
        &&& self.client_activity.id().names(target, "client_activity"@)
        &&& self.client_cell_height.id().names(target, "client_cell_height"@)
        &&& self.client_cell_width.id().names(target, "client_cell_width"@)
        &&& self.client_control_mode.id().names(target, "client_control_mode"@)
        &&& self.client_created.id().names(target, "client_created"@)
        &&& self.client_discarded.id().names(target, "client_discarded"@)
        &&& self.client_flags.id().names(target, "client_flags"@)
        &&& self.client_height.id().names(target, "client_height"@)
        &&& self.client_key_table.id().names(target, "client_key_table"@)
        &&& self.client_pid.id().names(target, "client_pid"@)
        &&& self.client_prefix.id().names(target, "client_prefix"@)
        &&& self.client_readonly.id().names(target, "client_readonly"@)
        &&& self.client_termfeatures.id().names(target, "client_termfeatures"@)
        &&& self.client_termname.id().names(target, "client_termname"@)
        &&& self.client_termtype.id().names(target, "client_termtype"@)
        &&& self.client_tty.id().names(target, "client_tty"@)
        &&& self.client_uid.id().names(target, "client_uid"@)
        &&& self.client_user.id().names(target, "client_user"@)
        &&& self.client_utf8.id().names(target, "client_utf8"@)
        &&& self.client_width.id().names(target, "client_width"@)
        &&& self.client_written.id().names(target, "client_written"@)
    }

    /// Build handles bound to one filter target name.
    pub fn for_target(target: &'static str) -> (fields: Self)
        ensures
            fields.are_of(target@),
    {
        ClientFields {
            client_name: text_field(target, "client_name"),
            client_activity: integer_field(target, "client_activity"),
            client_cell_height: integer_field(target, "client_cell_height"),
            client_cell_width: integer_field(target, "client_cell_width"),
            client_control_mode: bool_field(target, "client_control_mode"),
            client_created: integer_field(target, "client_created"),
            client_discarded: integer_field(target, "client_discarded"),
            client_flags: text_field(target, "client_flags"),
            client_height: integer_field(target, "client_height"),
            client_key_table: text_field(target, "client_key_table"),
            client_pid: integer_field(target, "client_pid"),
            client_prefix: bool_field(target, "client_prefix"),
            client_readonly: bool_field(target, "client_readonly"),
            client_termfeatures: text_field(target, "client_termfeatures"),
            client_termname: text_field(target, "client_termname"),
            client_termtype: text_field(target, "client_termtype"),
            client_tty: text_field(target, "client_tty"),
            client_uid: integer_field(target, "client_uid"),
            client_user: text_field(target, "client_user"),
            client_utf8: bool_field(target, "client_utf8"),
            client_width: integer_field(target, "client_width"),
            client_written: integer_field(target, "client_written"),
        }
    }

    /// Render which set of handles is being held.
    pub fn debug_text(&self) -> (rendering: String)
        ensures
            rendering@ == "ClientFields { .. }"@,
    {
        "ClientFields { .. }".to_owned()
    }
}

impl Filterable for ClientInfo {
    type Fields = ClientFields<ClientInfo>;

    open spec fn target_name() -> Seq<char> {
        "client"@
    }

    open spec fn passes(&self, predicate: model::PredicateV) -> bool {
        record::record_passes(self@, predicate)
    }

    open spec fn checked(field: Seq<char>, data: model::DataV) -> (
        Option<FilterExpressionErrorKind>,
        model::DataV,
    ) {
        record::checked_field(InfoPlacement::ClientInfo, field, data)
    }

    fn filter_target() -> (target: &'static str) {
        "client"
    }

    fn filter_fields() -> (fields: Self::Fields)
        ensures
            fields.are_of("client"@),
    {
        ClientFields::for_target("client")
    }

    fn filter_matches(&self, predicate: &Predicate) -> (passes: bool) {
        assert(self.passes(predicate@) == record::record_passes(self@, predicate@));
        self.record.matches(predicate)
    }

    fn filter_validate(predicate: &mut Predicate) -> (result: Result<(), FilterExpressionError>) {
        validate_field(InfoPlacement::ClientInfo, predicate)
    }

    proof fn lemma_settles_again(field: Seq<char>, data: model::DataV) {
        record::lemma_field_settles_again(InfoPlacement::ClientInfo, field, data);
    }

    proof fn lemma_passes_alike(&self, left: model::PredicateV, right: model::PredicateV) {
        record::lemma_record_passes_alike(self@, left, right);
    }

    proof fn lemma_settling_keeps_answers(
        &self,
        predicate: model::PredicateV,
        target: Option<Seq<char>>,
    ) {
        record::lemma_known_literals_are_settled(
            InfoPlacement::ClientInfo,
            predicate.field,
            predicate.data,
        );
    }
}

impl FilterSchema for ClientInfo {
    open spec fn described() -> Seq<schema::DescriptorV> {
        seq![record::described(InfoPlacement::ClientInfo, "client"@)]
    }

    fn describe() -> (catalog: Vec<FilterSchemaDescriptor>) {
        proof {
            record::lemma_described_is_closed(InfoPlacement::ClientInfo, "client"@);
        }
        let mut catalog: Vec<FilterSchemaDescriptor> = Vec::new();
        catalog.push(describe(InfoPlacement::ClientInfo, "client"));
        assert(schema::catalog_views(catalog@) =~= Self::described());
        catalog
    }
}

/// A snapshot of a client passes and checks a test by the values that it holds.
pub proof fn law_client_snapshots_pass_by_their_values(
    info: ClientInfo,
    predicate: model::PredicateV,
    field: Seq<char>,
    data: model::DataV,
)
    ensures
        info.passes(predicate) <==> record::record_passes(info@, predicate),
        ClientInfo::checked(field, data) == record::checked_field(InfoPlacement::ClientInfo, field, data),
        ClientInfo::target_name() == "client"@,
        ClientInfo::described() == seq![record::described(InfoPlacement::ClientInfo, "client"@)],
{
}

} // verus!
