//! The commands that list tmux objects, and reading what they print.

use vstd::prelude::*;
use vstd::string::*;
use vstd::utf8::*;

use crate::client;
use crate::client::Client;
use crate::command;
use crate::command::Command;
use crate::command::CommandResult;
use crate::decimal;
use crate::decimal::format_signed;
use crate::error;
use crate::error::Error;
use crate::formats::catalog::InfoPlacement;
use crate::formats::error::ListProfile;
use crate::formats::plan;
use crate::formats::plan::FormatPlan;
use crate::formats::plan::PlanPurpose;
use crate::pane;
use crate::pane::Pane;
use crate::session;
use crate::session::Session;
use crate::snapshot::client_info::hydrate_client_infos_from_stdout;
use crate::snapshot::projection;
use crate::snapshot::projection::hydrate_pane_projections_from_stdout;
use crate::snapshot::projection::hydrate_window_projections_from_stdout;
use crate::snapshot::projection::pane_projection_plan;
use crate::snapshot::projection::window_projection_plan;
use crate::snapshot::record;
use crate::snapshot::session_info::hydrate_session_infos_from_stdout;
use crate::target;
use crate::target::PaneId;
use crate::target::ServerIdentity;
use crate::target::SessionId;
use crate::target::WindowId;
use crate::version::TmuxVersion;
use crate::window;
use crate::window::Window;

verus! {

/// What a listing covers.
pub enum Scope<'a> {
    /// Everything on the server.
    Server,
    /// What a target holds.
    Target(&'a str),
    /// What the windows of a session hold.
    SessionTarget(&'a str),
}

/// What a listing covers, in contracts.
#[verifier::ext_equal]
pub ghost enum ScopeV {
    Server,
    Target(Seq<char>),
    SessionTarget(Seq<char>),
}

impl<'a> Scope<'a> {
    /// The scope in contracts.
    pub open spec fn view(&self) -> ScopeV {
        match self {
            Scope::Server => ScopeV::Server,
            Scope::Target(target) => ScopeV::Target(target@),
            Scope::SessionTarget(target) => ScopeV::SessionTarget(target@),
        }
    }
}

/// A listing of a scope.
pub open spec fn scoped(command: command::CommandV, scope: ScopeV) -> command::CommandV {
    match scope {
        ScopeV::Server => command.with_text("-a"@),
        ScopeV::Target(target) => command.with_text("-t"@).with_text(target),
        ScopeV::SessionTarget(target) => command.with_text("-s"@).with_text("-t"@).with_text(
            target,
        ),
    }
}

/// A listing of the rows that pass a predicate.
pub open spec fn narrowed(
    command: command::CommandV,
    predicate: Option<Seq<char>>,
) -> command::CommandV {
    match predicate {
        None => command,
        Some(predicate) => command.with_text("-f"@).with_text(predicate),
    }
}

/// A predicate in contracts.
pub open spec fn predicate_view(predicate: Option<&str>) -> Option<Seq<char>> {
    match predicate {
        None => None,
        Some(predicate) => Some(predicate@),
    }
}

/// Add a scope to a listing.
fn add_scope(command: Command, scope: &Scope<'_>) -> (listing: Command)
    ensures
        listing@ == scoped(command@, scope@),
{
    match scope {
        Scope::Server => command.text("-a"),
        Scope::Target(target) => command.text("-t").text(target),
        Scope::SessionTarget(target) => command.text("-s").text("-t").text(target),
    }
}

/// Add a predicate to a listing.
fn add_predicate(command: Command, predicate: Option<&str>) -> (listing: Command)
    ensures
        listing@ == narrowed(command@, predicate_view(predicate)),
{
    match predicate {
        None => command,
        Some(predicate) => command.text("-f").text(predicate),
    }
}

/// The predicate that tmux answers with the rows whose field has a value.
///
/// The value is an identity or a number: no byte of it has a meaning in a
/// format.
pub open spec fn equality(field: Seq<char>, value: Seq<char>) -> Seq<char> {
    "#{==:#{"@ + field + "},"@ + value + "}"@
}

/// Write the predicate that a field has a value.
fn write_equality(field: &str, value: &str) -> (predicate: String)
    ensures
        predicate@ == equality(field@, value@),
{
    let mut predicate = "#{==:#{".to_owned();
    predicate.append(field);
    predicate.append("},");
    predicate.append(value);
    predicate.append("}");
    predicate
}

impl SessionId {
    /// The predicate that a field has this identity.
    pub fn predicate(&self, field: &str) -> (predicate: String)
        ensures
            predicate@ == equality(field@, target::id_text('$', self@)),
    {
        write_equality(field, self.text().as_str())
    }
}

impl WindowId {
    /// The predicate that a field has this identity.
    pub fn predicate(&self, field: &str) -> (predicate: String)
        ensures
            predicate@ == equality(field@, target::id_text('@', self@)),
    {
        write_equality(field, self.text().as_str())
    }
}

impl PaneId {
    /// The predicate that a field has this identity.
    pub fn predicate(&self, field: &str) -> (predicate: String)
        ensures
            predicate@ == equality(field@, target::id_text('%', self@)),
    {
        write_equality(field, self.text().as_str())
    }
}

/// The predicate that a window has an index.
pub fn index_predicate(index: i32) -> (predicate: String)
    ensures
        predicate@ == equality("window_index"@, decimal::signed_decimal(index as int)),
{
    write_equality("window_index", format_signed(index as i128).as_str())
}

/// The plan of snapshots of what a listing lists.
pub open spec fn intrinsic(profile: ListProfile, version: TmuxVersion) -> plan::PlanV {
    plan::PlanV {
        profile,
        purpose: PlanPurpose::Intrinsic(plan::placement(profile)),
        planned: plan::planned(plan::info_descriptors(plan::placement(profile)), version),
    }
}

/// The plan of a listing of windows.
pub open spec fn window_plan(version: TmuxVersion) -> plan::PlanV {
    projection::planned(
        ListProfile::Windows,
        version,
        InfoPlacement::WindowInfo,
        projection::window_edge(),
    )->Ok_0
}

/// The plan of a listing of panes.
pub open spec fn pane_plan(version: TmuxVersion) -> plan::PlanV {
    projection::planned(
        ListProfile::Panes,
        version,
        InfoPlacement::PaneInfo,
        projection::pane_edge(),
    )->Ok_0
}

/// The format that a plan asks for.
pub open spec fn asked(plan: plan::PlanV) -> Seq<char> {
    plan::template_of(plan::selected(plan.planned))
}

/// The command that lists sessions.
pub fn list_sessions(
    version: &TmuxVersion,
    predicate: Option<&str>,
) -> (command: Command)
    ensures
        command@ == narrowed(
            command::called("list-sessions"@).with_text("-F"@).with_text(asked(intrinsic(ListProfile::Sessions, *version))),
            predicate_view(predicate),
        ),
{
    let plan = FormatPlan::for_profile(ListProfile::Sessions, version);
    let template = plan.template();
    add_predicate(Command::new("list-sessions").text("-F").text(template.as_str()), predicate)
}

/// Snapshots on a server.
pub open spec fn sessions_on(server: Seq<u8>, infos: Seq<record::RecordV>) -> Seq<session::SessionV> {
    infos.map_values(|info: record::RecordV| session::SessionV { server, info })
}

/// The sessions that a command prints.
pub open spec fn sessions_printed(
    command: Seq<char>,
    server: Seq<u8>,
    version: TmuxVersion,
    result: command::ResultV,
) -> Result<Seq<session::SessionV>, error::ErrorV> {
    match error::refusal(command, result) {
        Some(failure) => Err(failure),
        None => match record::snapshots_of(
            intrinsic(ListProfile::Sessions, version),
            result.stdout,
            InfoPlacement::SessionInfo,
        ) {
            Ok(infos) => Ok(sessions_on(server, infos)),
            Err(detail) => Err(error::ErrorV::DecodeListing { list_command: command, detail }),
        },
    }
}

/// The sessions that a listing reports.
pub open spec fn sessions_listed(
    server: Seq<u8>,
    version: TmuxVersion,
    result: command::ResultV,
) -> Result<Seq<session::SessionV>, error::ErrorV> {
    sessions_printed("list-sessions"@, server, version, result)
}

/// Read the sessions that a command prints, in their order.
///
/// # Errors
///
/// Why tmux refused the command, or why what it prints does not decode.
pub fn read_printed_sessions(
    command: &'static str,
    server: &ServerIdentity,
    version: &TmuxVersion,
    result: &CommandResult,
) -> (sessions: Result<Vec<Session>, Error>)
    ensures
        match sessions_printed(command@, server@, *version, result@) {
            Ok(views) => sessions is Ok && session::session_views(sessions->Ok_0@) == views,
            Err(failure) => sessions is Err && sessions->Err_0@ == failure,
        },
{
    if let Err(failure) = result.require(command) {
        return Err(failure);
    }
    let plan = FormatPlan::for_profile(ListProfile::Sessions, version);
    let infos = match hydrate_session_infos_from_stdout(&plan, result.stdout()) {
        Ok(infos) => infos,
        Err(detail) => return Err(Error::DecodeListing { list_command: command, detail }),
    };
    let ghost views = record::snapshots_of(
        intrinsic(ListProfile::Sessions, *version),
        result@.stdout,
        InfoPlacement::SessionInfo,
    )->Ok_0;
    let mut sessions: Vec<Session> = Vec::new();
    let mut index: usize = 0;
    while index < infos.len()
        invariant
            index <= infos@.len(),
            infos@.len() == views.len(),
            forall|i: int| 0 <= i < infos@.len() ==> (#[trigger] infos@[i])@ == views[i],
            sessions@.len() == index,
            forall|i: int|
                0 <= i < index ==> (#[trigger] sessions@[i])@ == (session::SessionV {
                    server: server@,
                    info: views[i],
                }),
        decreases infos@.len() - index,
    {
        sessions.push(Session::new(server.copy(), infos[index].copy()));
        index += 1;
    }
    assert(session::session_views(sessions@) =~= sessions_on(server@, views));
    Ok(sessions)
}

/// Read the sessions that a listing reports, in its order.
///
/// # Errors
///
/// Why tmux refused the listing, or why it does not decode.
pub fn read_sessions(
    server: &ServerIdentity,
    version: &TmuxVersion,
    result: &CommandResult,
) -> (sessions: Result<Vec<Session>, Error>)
    ensures
        match sessions_listed(server@, *version, result@) {
            Ok(views) => sessions is Ok && session::session_views(sessions->Ok_0@) == views,
            Err(failure) => sessions is Err && sessions->Err_0@ == failure,
        },
{
    read_printed_sessions("list-sessions", server, version, result)
}

/// The command that lists clients.
pub fn list_clients(
    version: &TmuxVersion,
    predicate: Option<&str>,
) -> (command: Command)
    ensures
        command@ == narrowed(
            command::called("list-clients"@).with_text("-F"@).with_text(asked(intrinsic(ListProfile::Clients, *version))),
            predicate_view(predicate),
        ),
{
    let plan = FormatPlan::for_profile(ListProfile::Clients, version);
    let template = plan.template();
    add_predicate(Command::new("list-clients").text("-F").text(template.as_str()), predicate)
}

/// Snapshots on a server.
pub open spec fn clients_on(server: Seq<u8>, infos: Seq<record::RecordV>) -> Seq<client::ClientV> {
    infos.map_values(|info: record::RecordV| client::ClientV { server, info })
}

/// The clients that a listing reports.
pub open spec fn clients_listed(
    server: Seq<u8>,
    version: TmuxVersion,
    result: command::ResultV,
) -> Result<Seq<client::ClientV>, error::ErrorV> {
    match error::refusal("list-clients"@, result) {
        Some(failure) => Err(failure),
        None => match record::snapshots_of(
            intrinsic(ListProfile::Clients, version),
            result.stdout,
            InfoPlacement::ClientInfo,
        ) {
            Ok(infos) => Ok(clients_on(server, infos)),
            Err(detail) => Err(error::ErrorV::DecodeListing { list_command: "list-clients"@, detail }),
        },
    }
}

/// Read the clients that a listing reports, in its order.
///
/// # Errors
///
/// Why tmux refused the listing, or why it does not decode.
pub fn read_clients(
    server: &ServerIdentity,
    version: &TmuxVersion,
    result: &CommandResult,
) -> (clients: Result<Vec<Client>, Error>)
    ensures
        match clients_listed(server@, *version, result@) {
            Ok(views) => clients is Ok && client::client_views(clients->Ok_0@) == views,
            Err(failure) => clients is Err && clients->Err_0@ == failure,
        },
{
    if let Err(failure) = result.require("list-clients") {
        return Err(failure);
    }
    let plan = FormatPlan::for_profile(ListProfile::Clients, version);
    let infos = match hydrate_client_infos_from_stdout(&plan, result.stdout()) {
        Ok(infos) => infos,
        Err(detail) => return Err(Error::DecodeListing { list_command: "list-clients", detail }),
    };
    let ghost views = record::snapshots_of(
        intrinsic(ListProfile::Clients, *version),
        result@.stdout,
        InfoPlacement::ClientInfo,
    )->Ok_0;
    let mut clients: Vec<Client> = Vec::new();
    let mut index: usize = 0;
    while index < infos.len()
        invariant
            index <= infos@.len(),
            infos@.len() == views.len(),
            forall|i: int| 0 <= i < infos@.len() ==> (#[trigger] infos@[i])@ == views[i],
            clients@.len() == index,
            forall|i: int|
                0 <= i < index ==> (#[trigger] clients@[i])@ == (client::ClientV {
                    server: server@,
                    info: views[i],
                }),
        decreases infos@.len() - index,
    {
        clients.push(Client::new(server.copy(), infos[index].copy()));
        index += 1;
    }
    assert(client::client_views(clients@) =~= clients_on(server@, views));
    Ok(clients)
}

/// The command that lists windows.
pub fn list_windows(
    version: &TmuxVersion,
    scope: &Scope<'_>,
    predicate: Option<&str>,
) -> (command: Command)
    ensures
        command@ == narrowed(
            scoped(command::called("list-windows"@), scope@).with_text("-F"@).with_text(asked(window_plan(*version))),
            predicate_view(predicate),
        ),
{
    let plan = match window_projection_plan(version) {
        Ok(plan) => plan,
        Err(_) => vstd::pervasive::unreached(),
    };
    let template = plan.template();
    add_predicate(add_scope(Command::new("list-windows"), scope).text("-F").text(template.as_str()), predicate)
}

/// The windows that a command prints.
pub open spec fn windows_printed(
    command: Seq<char>,
    server: Seq<u8>,
    version: TmuxVersion,
    result: command::ResultV,
) -> Result<Seq<projection::WindowProjectionV>, error::ErrorV> {
    match error::refusal(command, result) {
        Some(failure) => Err(failure),
        None => match projection::listed_windows(server, window_plan(version), result.stdout) {
            Ok(rows) => Ok(rows),
            Err(detail) => Err(error::ErrorV::DecodeListing { list_command: command, detail }),
        },
    }
}

/// The windows that a listing reports.
pub open spec fn windows_listed(
    server: Seq<u8>,
    version: TmuxVersion,
    result: command::ResultV,
) -> Result<Seq<projection::WindowProjectionV>, error::ErrorV> {
    windows_printed("list-windows"@, server, version, result)
}

/// Read the windows that a command prints, in their order.
///
/// # Errors
///
/// Why tmux refused the command, or why what it prints does not decode.
pub fn read_printed_windows(
    command: &'static str,
    server: &ServerIdentity,
    version: &TmuxVersion,
    result: &CommandResult,
) -> (windows: Result<Vec<Window>, Error>)
    ensures
        match windows_printed(command@, server@, *version, result@) {
            Ok(views) => windows is Ok && window::window_views(windows->Ok_0@) == views,
            Err(failure) => windows is Err && windows->Err_0@ == failure,
        },
{
    if let Err(failure) = result.require(command) {
        return Err(failure);
    }
    let plan = match window_projection_plan(version) {
        Ok(plan) => plan,
        Err(_) => vstd::pervasive::unreached(),
    };
    let rows = match hydrate_window_projections_from_stdout(server, &plan, result.stdout()) {
        Ok(rows) => rows,
        Err(detail) => return Err(Error::DecodeListing { list_command: command, detail }),
    };
    let mut windows: Vec<Window> = Vec::new();
    let mut index: usize = 0;
    while index < rows.len()
        invariant
            index <= rows@.len(),
            windows@.len() == index,
            forall|i: int| 0 <= i < index ==> (#[trigger] windows@[i])@ == rows@[i]@,
        decreases rows@.len() - index,
    {
        windows.push(Window::new(rows[index].copy()));
        index += 1;
    }
    assert(window::window_views(windows@) =~= projection::window_views(rows@));
    Ok(windows)
}

/// Read the windows that a listing reports, in its order.
///
/// # Errors
///
/// Why tmux refused the listing, or why it does not decode.
pub fn read_windows(
    server: &ServerIdentity,
    version: &TmuxVersion,
    result: &CommandResult,
) -> (windows: Result<Vec<Window>, Error>)
    ensures
        match windows_listed(server@, *version, result@) {
            Ok(views) => windows is Ok && window::window_views(windows->Ok_0@) == views,
            Err(failure) => windows is Err && windows->Err_0@ == failure,
        },
{
    read_printed_windows("list-windows", server, version, result)
}

/// The command that lists panes.
pub fn list_panes(
    version: &TmuxVersion,
    scope: &Scope<'_>,
    predicate: Option<&str>,
) -> (command: Command)
    ensures
        command@ == narrowed(
            scoped(command::called("list-panes"@), scope@).with_text("-F"@).with_text(asked(pane_plan(*version))),
            predicate_view(predicate),
        ),
{
    let plan = match pane_projection_plan(version) {
        Ok(plan) => plan,
        Err(_) => vstd::pervasive::unreached(),
    };
    let template = plan.template();
    add_predicate(add_scope(Command::new("list-panes"), scope).text("-F").text(template.as_str()), predicate)
}

/// The panes that a listing reports.
pub open spec fn panes_listed(
    server: Seq<u8>,
    version: TmuxVersion,
    result: command::ResultV,
) -> Result<Seq<projection::PaneProjectionV>, error::ErrorV> {
    match error::refusal("list-panes"@, result) {
        Some(failure) => Err(failure),
        None => match projection::listed_panes(server, pane_plan(version), result.stdout) {
            Ok(rows) => Ok(rows),
            Err(detail) => Err(error::ErrorV::DecodeListing { list_command: "list-panes"@, detail }),
        },
    }
}

/// Read the panes that a listing reports, in its order.
///
/// # Errors
///
/// Why tmux refused the listing, or why it does not decode.
pub fn read_panes(
    server: &ServerIdentity,
    version: &TmuxVersion,
    result: &CommandResult,
) -> (panes: Result<Vec<Pane>, Error>)
    ensures
        match panes_listed(server@, *version, result@) {
            Ok(views) => panes is Ok && pane::pane_views(panes->Ok_0@) == views,
            Err(failure) => panes is Err && panes->Err_0@ == failure,
        },
{
    if let Err(failure) = result.require("list-panes") {
        return Err(failure);
    }
    let plan = match pane_projection_plan(version) {
        Ok(plan) => plan,
        Err(_) => vstd::pervasive::unreached(),
    };
    let rows = match hydrate_pane_projections_from_stdout(server, &plan, result.stdout()) {
        Ok(rows) => rows,
        Err(detail) => return Err(Error::DecodeListing { list_command: "list-panes", detail }),
    };
    let mut panes: Vec<Pane> = Vec::new();
    let mut index: usize = 0;
    while index < rows.len()
        invariant
            index <= rows@.len(),
            panes@.len() == index,
            forall|i: int| 0 <= i < index ==> (#[trigger] panes@[i])@ == rows@[i]@,
        decreases rows@.len() - index,
    {
        panes.push(Pane::new(rows[index].copy()));
        index += 1;
    }
    assert(pane::pane_views(panes@) =~= projection::pane_views(rows@));
    Ok(panes)
}

/// The scope of a listing stands behind what the command holds: every object
/// of the server, those of a target, or those of a session.
pub proof fn law_listings_name_their_scope(command: command::CommandV, target: Seq<char>)
    ensures
        ({
            let count = command.arguments.len() as int;
            let all = scoped(command, ScopeV::Server).arguments;
            let some = scoped(command, ScopeV::Target(target)).arguments;
            let session = scoped(command, ScopeV::SessionTarget(target)).arguments;
            &&& all.len() == count + 1 && some.len() == count + 2 && session.len() == count + 3
            &&& all.take(count) == command.arguments && some.take(count) == command.arguments
                && session.take(count) == command.arguments
            &&& all[count].bytes == encode_utf8("-a"@)
            &&& some[count].bytes == encode_utf8("-t"@)
            &&& some[count + 1].bytes == encode_utf8(target)
            &&& session[count].bytes == encode_utf8("-s"@)
            &&& session[count + 1].bytes == encode_utf8("-t"@)
            &&& session[count + 2].bytes == encode_utf8(target)
        }),
{
    let count = command.arguments.len() as int;
    assert(scoped(command, ScopeV::Server).arguments.take(count) =~= command.arguments);
    assert(scoped(command, ScopeV::Target(target)).arguments.take(count) =~= command.arguments);
    assert(scoped(command, ScopeV::SessionTarget(target)).arguments.take(count)
        =~= command.arguments);
}

/// A predicate stands behind `-f` at the end of a listing, and a listing
/// without one is left as it is.
pub proof fn law_listings_carry_their_predicate(command: command::CommandV, predicate: Seq<char>)
    ensures
        narrowed(command, None) == command,
        ({
            let held = narrowed(command, Some(predicate)).arguments;
            let count = command.arguments.len() as int;
            &&& narrowed(command, Some(predicate)).name == command.name
            &&& held.len() == count + 2
            &&& held.take(count) == command.arguments
            &&& held[count].bytes == encode_utf8("-f"@)
            &&& held[count + 1].bytes == encode_utf8(predicate)
        }),
{
    let count = command.arguments.len() as int;
    assert(narrowed(command, Some(predicate)).arguments.take(count) =~= command.arguments);
}

/// What is read of a listing is said to be of the server that was asked, one
/// object for each snapshot and in their order.
pub proof fn law_listed_objects_are_of_their_server(
    server: Seq<u8>,
    infos: Seq<record::RecordV>,
    index: int,
)
    requires
        0 <= index < infos.len(),
    ensures
        sessions_on(server, infos).len() == infos.len(),
        sessions_on(server, infos)[index].server == server,
        sessions_on(server, infos)[index].info == infos[index],
        clients_on(server, infos).len() == infos.len(),
        clients_on(server, infos)[index].server == server,
        clients_on(server, infos)[index].info == infos[index],
{
}

/// A listing that tmux refused is reported as refused, one that it accepted is
/// never, and one that does not decode is reported with the command that
/// printed it.
pub proof fn law_refused_listings_have_no_rows(
    command: Seq<char>,
    server: Seq<u8>,
    version: TmuxVersion,
    result: command::ResultV,
)
    ensures
        !result.accepted() ==> {
            &&& sessions_printed(command, server, version, result) == Err::<
                Seq<session::SessionV>,
                error::ErrorV,
            >(error::refused(command, result))
            &&& windows_printed(command, server, version, result) == Err::<
                Seq<projection::WindowProjectionV>,
                error::ErrorV,
            >(error::refused(command, result))
            &&& clients_listed(server, version, result) == Err::<
                Seq<client::ClientV>,
                error::ErrorV,
            >(error::refused("list-clients"@, result))
            &&& panes_listed(server, version, result) == Err::<
                Seq<projection::PaneProjectionV>,
                error::ErrorV,
            >(error::refused("list-panes"@, result))
            &&& sessions_listed(server, version, result) == Err::<
                Seq<session::SessionV>,
                error::ErrorV,
            >(error::refused("list-sessions"@, result))
            &&& windows_listed(server, version, result) == Err::<
                Seq<projection::WindowProjectionV>,
                error::ErrorV,
            >(error::refused("list-windows"@, result))
        },
        result.accepted() ==> {
            &&& sessions_printed(command, server, version, result) matches Err(failure)
                ==> failure is DecodeListing && failure->list_command == command
            &&& windows_printed(command, server, version, result) matches Err(failure)
                ==> failure is DecodeListing && failure->list_command == command
            &&& clients_listed(server, version, result) matches Err(failure)
                ==> failure is DecodeListing && failure->list_command == "list-clients"@
            &&& panes_listed(server, version, result) matches Err(failure)
                ==> failure is DecodeListing && failure->list_command == "list-panes"@
        },
        sessions_printed(command, server, version, result) matches Ok(sessions) ==> forall|i: int|
            0 <= i < sessions.len() ==> (#[trigger] sessions[i]).server == server,
        clients_listed(server, version, result) matches Ok(clients) ==> forall|i: int|
            0 <= i < clients.len() ==> (#[trigger] clients[i]).server == server,
{
}

/// A predicate compares one field of the rows with one value.
pub proof fn law_predicates_compare_a_field(field: Seq<char>, value: Seq<char>)
    ensures
        ({
            let predicate = equality(field, value);
            let opening = "#{==:#{"@;
            let middle = "},"@;
            &&& predicate.len() == opening.len() + field.len() + middle.len() + value.len() + 1
            &&& predicate.take(opening.len() as int) == opening
            &&& predicate.skip(opening.len() as int).take(field.len() as int) == field
            &&& predicate.skip((opening.len() + field.len()) as int).take(middle.len() as int)
                == middle
            &&& predicate.skip((opening.len() + field.len() + middle.len()) as int).take(
                value.len() as int,
            ) == value
            &&& predicate.last() == '}'
        }),
{
    reveal_strlit("}");
    let predicate = equality(field, value);
    let opening = "#{==:#{"@;
    let middle = "},"@;
    assert(predicate.take(opening.len() as int) =~= opening);
    assert(predicate.skip(opening.len() as int).take(field.len() as int) =~= field);
    assert(predicate.skip((opening.len() + field.len()) as int).take(middle.len() as int)
        =~= middle);
    assert(predicate.skip((opening.len() + field.len() + middle.len()) as int).take(
        value.len() as int,
    ) =~= value);
}

/// A listing of sessions or clients asks for every field of the object that the
/// version reports, in their order. A listing of windows asks for the edge
/// behind them, and so does one of panes.
pub proof fn law_listings_ask_for_what_is_reported(profile: ListProfile, version: TmuxVersion)
    ensures
        intrinsic(profile, version).profile == profile,
        intrinsic(profile, version).purpose == PlanPurpose::Intrinsic(plan::placement(profile)),
        plan::selected(intrinsic(profile, version).planned) == plan::info_descriptors(
            plan::placement(profile),
        ).filter(|descriptor: plan::DescriptorV| plan::reports(version, descriptor)),
        window_plan(version).profile is Windows,
        window_plan(version).purpose is Projection,
        plan::selected(window_plan(version).planned) == (plan::info_descriptors(
            InfoPlacement::WindowInfo,
        ) + projection::described(projection::window_edge())).filter(
            |descriptor: plan::DescriptorV| plan::reports(version, descriptor),
        ),
        pane_plan(version).profile is Panes,
        pane_plan(version).purpose is Projection,
        plan::selected(pane_plan(version).planned) == (plan::info_descriptors(
            InfoPlacement::PaneInfo,
        ) + projection::described(projection::pane_edge())).filter(
            |descriptor: plan::DescriptorV| plan::reports(version, descriptor),
        ),
{
    projection::law_projection_plans_exist(version);
    let windows = plan::info_descriptors(InfoPlacement::WindowInfo);
    let panes = plan::info_descriptors(InfoPlacement::PaneInfo);
    let window_edge = projection::described(projection::window_edge());
    let pane_edge = projection::described(projection::pane_edge());
    plan::law_objects_are_described_by_their_fields(InfoPlacement::WindowInfo, 0);
    plan::law_objects_are_described_by_their_fields(InfoPlacement::PaneInfo, 0);
    plan::lemma_selected(plan::info_descriptors(plan::placement(profile)), version);
    plan::lemma_selected(windows + window_edge, version);
    plan::lemma_selected(panes + pane_edge, version);
    assert(seq![plan::DescriptorV::Catalog(InfoPlacement::WindowInfo.field(0))] + (windows.skip(1)
        + window_edge) =~= windows + window_edge);
    assert(seq![plan::DescriptorV::Catalog(InfoPlacement::PaneInfo.field(0))] + (panes.skip(1)
        + pane_edge) =~= panes + pane_edge);
}

} // verus!
