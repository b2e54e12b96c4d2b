//! A client that is attached to a server.

use vstd::prelude::*;

use crate::formats::catalog::CatalogField;
use crate::formats::catalog::InfoPlacement;
use crate::query::error::FilterExpressionError;
use crate::query::error::FilterExpressionErrorKind;
use crate::query::filterable::Filterable;
use crate::query::model;
use crate::query::private::Predicate;
use crate::query::schema;
use crate::query::schema::FilterSchema;
use crate::query::schema::FilterSchemaDescriptor;
use crate::snapshot::client_info::ClientFields;
use crate::snapshot::client_info::ClientInfo;
use crate::snapshot::record;
use crate::snapshot::record::describe;
use crate::snapshot::record::validate_field;
use crate::target::ServerIdentity;
use crate::text::TmuxText;

verus! {

/// A client that is attached to a server. Two handles are equal where they
/// name one terminal of one server.
pub struct Client {
    server: ServerIdentity,
    info: ClientInfo,
}

/// A client in contracts.
#[verifier::ext_equal]
pub ghost struct ClientV {
    pub server: Seq<u8>,
    pub info: record::RecordV,
}

/// The clients of a list in contracts.
pub open spec fn client_views(clients: Seq<Client>) -> Seq<ClientV> {
    clients.map_values(|client: Client| client@)
}

/// The name of a client's snapshot.
pub open spec fn client_name(info: record::RecordV) -> Seq<u8> {
    info.at(CatalogField::ClientName)->Available_0->Text_0
}

impl Client {
    /// The client in contracts.
    pub closed spec fn view(&self) -> ClientV {
        ClientV { server: self.server@, info: self.info@ }
    }

    /// Hold a snapshot of a client.
    pub fn new(server: ServerIdentity, info: ClientInfo) -> (client: Client)
        ensures
            client@ == (ClientV { server: server@, info: info@ }),
    {
        Client { server, info }
    }

    /// The snapshot.
    pub fn info(&self) -> (info: &ClientInfo)
        ensures
            info@ == self@.info,
    {
        &self.info
    }

    /// The server that the client lives on.
    pub fn server_identity(&self) -> (identity: &ServerIdentity)
        ensures
            identity@ == self@.server,
    {
        &self.server
    }

    /// Copy the handle.
    pub fn copy(&self) -> (copy: Client)
        ensures
            copy@ == self@,
    {
        Client { server: self.server.copy(), info: self.info.copy() }
    }

    /// The client's name, which is its terminal.
    pub fn name(&self) -> (name: &TmuxText)
        ensures
            name@ == client_name(self@.info),
    {
        self.info.client_name()
    }
}

impl Clone for Client {
    fn clone(&self) -> (copy: Self)
        ensures
            copy@ == self@,
    {
        self.copy()
    }
}

impl PartialEq for Client {
    fn eq(&self, other: &Self) -> (same: bool) {
        self.server == other.server && *self.name() == *other.name()
    }
}

impl vstd::std_specs::cmp::PartialEqSpecImpl for Client {
    open spec fn obeys_eq_spec() -> bool {
        true
    }

    open spec fn eq_spec(&self, other: &Self) -> bool {
        self@.server == other@.server && client_name(self@.info) == client_name(other@.info)
    }
}

impl Eq for Client {

}

impl Filterable for Client {
    type Fields = ClientFields<Client>;

    open spec fn target_name() -> Seq<char> {
        "client"@
    }

    open spec fn passes(&self, predicate: model::PredicateV) -> bool {
        record::record_passes(self@.info, predicate)
    }

    open spec fn checked(field: Seq<char>, data: model::DataV) -> (
        Option<FilterExpressionErrorKind>,
        model::DataV,
    ) {
        record::checked_field(InfoPlacement::ClientInfo, field, data)
    }

    fn filter_target() -> (target: &'static str) {
        "client"
    }

    fn filter_fields() -> (fields: Self::Fields)
        ensures
            fields.are_of("client"@),
    {
        ClientFields::for_target("client")
    }

    fn filter_matches(&self, predicate: &Predicate) -> (passes: bool) {
        assert(self.passes(predicate@) == self.info.passes(predicate@));
        self.info.filter_matches(predicate)
    }

    fn filter_validate(predicate: &mut Predicate) -> (result: Result<(), FilterExpressionError>) {
        validate_field(InfoPlacement::ClientInfo, predicate)
    }

    proof fn lemma_settles_again(field: Seq<char>, data: model::DataV) {
        record::lemma_field_settles_again(InfoPlacement::ClientInfo, field, data);
    }

    proof fn lemma_passes_alike(&self, left: model::PredicateV, right: model::PredicateV) {
        record::lemma_record_passes_alike(self@.info, left, right);
    }

    proof fn lemma_settling_keeps_answers(
        &self,
        predicate: model::PredicateV,
        target: Option<Seq<char>>,
    ) {
        record::lemma_known_literals_are_settled(
            InfoPlacement::ClientInfo,
            predicate.field,
            predicate.data,
        );
    }
}

impl FilterSchema for Client {
    open spec fn described() -> Seq<schema::DescriptorV> {
        seq![record::described(InfoPlacement::ClientInfo, "client"@)]
    }

    fn describe() -> (catalog: Vec<FilterSchemaDescriptor>) {
        proof {
            record::lemma_described_is_closed(InfoPlacement::ClientInfo, "client"@);
        }
        let mut catalog: Vec<FilterSchemaDescriptor> = Vec::new();
        catalog.push(describe(InfoPlacement::ClientInfo, "client"));
        assert(schema::catalog_views(catalog@) =~= Self::described());
        catalog
    }
}

/// A client passes and checks a test as its snapshot does.
pub proof fn law_clients_pass_as_their_snapshot(
    client: Client,
    predicate: model::PredicateV,
    field: Seq<char>,
    data: model::DataV,
)
    ensures
        client.passes(predicate) <==> record::record_passes(client@.info, predicate),
        Client::checked(field, data) == record::checked_field(InfoPlacement::ClientInfo, field, data),
        Client::target_name() == "client"@,
        Client::described() == seq![record::described(InfoPlacement::ClientInfo, "client"@)],
{
}

} // verus!
