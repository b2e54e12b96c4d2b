//! Finding sessions, windows, panes and clients.

use vstd::prelude::*;
use vstd::string::*;

use crate::client;
use crate::client::Client;
use crate::command;
use crate::command::Command;
use crate::command::CommandResult;
use crate::error::Error;
use crate::formats::error::ListProfile;
use crate::listing;
use crate::listing::list_clients;
use crate::listing::list_panes;
use crate::listing::list_sessions;
use crate::listing::list_windows;
use crate::listing::read_clients;
use crate::listing::read_panes;
use crate::listing::read_sessions;
use crate::listing::read_windows;
use crate::listing::Scope;
use crate::pane;
use crate::pane::Pane;
use crate::query::expression::FilterExpr;
use crate::server::hierarchy;
use crate::server::hierarchy::stitch;
use crate::server::hierarchy::SessionTree;
use crate::server::Server;
use crate::session;
use crate::session::Session;
use crate::target;
use crate::target::PaneId;
use crate::target::SessionId;
use crate::target::WindowId;
use crate::text::bytes_eq;
use crate::version::TmuxVersion;
use crate::window;
use crate::window::Window;

verus! {

/// The position of the first session with a name.
pub open spec fn session_named(sessions: Seq<session::SessionV>, name: Seq<u8>, from: int) -> Option<
    int,
>
    decreases sessions.len() - from,
{
    if from < 0 || from >= sessions.len() {
        None
    } else if session::session_name(sessions[from].info) == name {
        Some(from)
    } else {
        session_named(sessions, name, from + 1)
    }
}

/// The position of the first client with a name.
pub open spec fn client_named(clients: Seq<client::ClientV>, name: Seq<u8>, from: int) -> Option<
    int,
>
    decreases clients.len() - from,
{
    if from < 0 || from >= clients.len() {
        None
    } else if client::client_name(clients[from].info) == name {
        Some(from)
    } else {
        client_named(clients, name, from + 1)
    }
}

/// The sessions that a client is attached to.
pub open spec fn attached(sessions: Seq<session::SessionV>) -> Seq<session::SessionV>
    decreases sessions.len(),
{
    if sessions.len() == 0 {
        Seq::empty()
    } else {
        let earlier = attached(sessions.drop_last());
        if session::attached(sessions.last().info) {
            earlier.push(sessions.last())
        } else {
            earlier
        }
    }
}

/// Keep a listing, or nothing where it failed.
fn or_empty<T>(listing: Result<Vec<T>, Error>) -> (items: Vec<T>)
    ensures
        match listing {
            Ok(listed) => items == listed,
            Err(_) => items@.len() == 0,
        },
{
    match listing {
        Ok(items) => items,
        Err(_) => Vec::new(),
    }
}

impl Server {
    /// The command that lists every session on the server.
    pub fn sessions(&self, version: &TmuxVersion) -> (command: Command)
        ensures
            command@ == command::called("list-sessions"@).with_text("-F"@).with_text(
                listing::asked(listing::intrinsic(ListProfile::Sessions, *version)),
            ),
    {
        list_sessions(version, None)
    }

    /// Read every session on the server, in tmux's own order.
    ///
    /// # Errors
    ///
    /// Why tmux refused the listing, or why it does not decode.
    pub fn read_sessions(&self, version: &TmuxVersion, result: &CommandResult) -> (listing: Result<
        Vec<Session>,
        Error,
    >)
        ensures
            match listing::sessions_listed(self@.socket_path, *version, result@) {
                Ok(views) => listing is Ok && session::session_views(listing->Ok_0@) == views,
                Err(failure) => listing is Err && listing->Err_0@ == failure,
            },
    {
        read_sessions(self.identity(), version, result)
    }

    /// Keep the sessions of a listing, or none where it failed.
    pub fn sessions_or_empty(listing: Result<Vec<Session>, Error>) -> (sessions: Vec<Session>)
        ensures
            match listing {
                Ok(listed) => sessions == listed,
                Err(_) => sessions@.len() == 0,
            },
    {
        or_empty(listing)
    }

    /// The command that lists every window on the server.
    pub fn windows(&self, version: &TmuxVersion) -> (command: Command)
        ensures
            command@ == listing::scoped(command::called("list-windows"@), listing::ScopeV::Server).with_text("-F"@).with_text(
                listing::asked(listing::window_plan(*version)),
            ),
    {
        list_windows(version, &Scope::Server, None)
    }

    /// Read every window on the server, in tmux's own order.
    ///
    /// # Errors
    ///
    /// Why tmux refused the listing, or why it does not decode.
    pub fn read_windows(&self, version: &TmuxVersion, result: &CommandResult) -> (listing: Result<
        Vec<Window>,
        Error,
    >)
        ensures
            match listing::windows_listed(self@.socket_path, *version, result@) {
                Ok(views) => listing is Ok && window::window_views(listing->Ok_0@) == views,
                Err(failure) => listing is Err && listing->Err_0@ == failure,
            },
    {
        read_windows(self.identity(), version, result)
    }

    /// Keep the windows of a listing, or none where it failed.
    pub fn windows_or_empty(listing: Result<Vec<Window>, Error>) -> (windows: Vec<Window>)
        ensures
            match listing {
                Ok(listed) => windows == listed,
                Err(_) => windows@.len() == 0,
            },
    {
        or_empty(listing)
    }

    /// The command that lists every pane on the server.
    pub fn panes(&self, version: &TmuxVersion) -> (command: Command)
        ensures
            command@ == listing::scoped(command::called("list-panes"@), listing::ScopeV::Server).with_text("-F"@).with_text(
                listing::asked(listing::pane_plan(*version)),
            ),
    {
        list_panes(version, &Scope::Server, None)
    }

    /// Read every pane on the server, in tmux's own order.
    ///
    /// # Errors
    ///
    /// Why tmux refused the listing, or why it does not decode.
    pub fn read_panes(&self, version: &TmuxVersion, result: &CommandResult) -> (listing: Result<
        Vec<Pane>,
        Error,
    >)
        ensures
            match listing::panes_listed(self@.socket_path, *version, result@) {
                Ok(views) => listing is Ok && pane::pane_views(listing->Ok_0@) == views,
                Err(failure) => listing is Err && listing->Err_0@ == failure,
            },
    {
        read_panes(self.identity(), version, result)
    }

    /// Keep the panes of a listing, or none where it failed.
    pub fn panes_or_empty(listing: Result<Vec<Pane>, Error>) -> (panes: Vec<Pane>)
        ensures
            match listing {
                Ok(listed) => panes == listed,
                Err(_) => panes@.len() == 0,
            },
    {
        or_empty(listing)
    }

    /// The command that lists every client on the server.
    pub fn clients(&self, version: &TmuxVersion) -> (command: Command)
        ensures
            command@ == command::called("list-clients"@).with_text("-F"@).with_text(
                listing::asked(listing::intrinsic(ListProfile::Clients, *version)),
            ),
    {
        list_clients(version, None)
    }

    /// Read every client on the server, in tmux's own order.
    ///
    /// # Errors
    ///
    /// Why tmux refused the listing, or why it does not decode.
    pub fn read_clients(&self, version: &TmuxVersion, result: &CommandResult) -> (listing: Result<
        Vec<Client>,
        Error,
    >)
        ensures
            match listing::clients_listed(self@.socket_path, *version, result@) {
                Ok(views) => listing is Ok && client::client_views(listing->Ok_0@) == views,
                Err(failure) => listing is Err && listing->Err_0@ == failure,
            },
    {
        read_clients(self.identity(), version, result)
    }

    /// Keep the clients of a listing, or none where it failed.
    pub fn clients_or_empty(listing: Result<Vec<Client>, Error>) -> (clients: Vec<Client>)
        ensures
            match listing {
                Ok(listed) => clients == listed,
                Err(_) => clients@.len() == 0,
            },
    {
        or_empty(listing)
    }

    /// Find the session with this exact name. Names are compared as bytes,
    /// because tmux permits names that are not valid UTF-8.
    pub fn session<'a>(sessions: &'a Vec<Session>, name: &[u8]) -> (found: Option<&'a Session>)
        ensures
            match session_named(session::session_views(sessions@), name@, 0) {
                Some(index) => 0 <= index < sessions@.len() && found == Some(&sessions@[index]),
                None => found is None,
            },
            found matches Some(session) ==> session::session_name(session@.info) == name@,
            found is None ==> forall|i: int|
                0 <= i < sessions@.len() ==> session::session_name(
                    (#[trigger] sessions@[i])@.info,
                ) != name@,
    {
        let ghost views = session::session_views(sessions@);
        proof {
            law_sessions_are_found_by_name(views, name@, 0);
            assert(forall|i: int| 0 <= i < sessions@.len() ==> views[i] == (
            #[trigger] sessions@[i])@);
        }
        let mut index: usize = 0;
        while index < sessions.len()
            invariant
                index <= sessions@.len(),
                views == session::session_views(sessions@),
                session_named(views, name@, 0) == session_named(views, name@, index as int),
            decreases sessions@.len() - index,
        {
            assert(views[index as int] == sessions@[index as int]@);
            if bytes_eq(sessions[index].name().as_bytes(), name) {
                return Some(&sessions[index]);
            }
            index += 1;
        }
        None
    }

    /// Report whether a session with this exact name exists.
    pub fn has_session(sessions: &Vec<Session>, name: &[u8]) -> (found: bool)
        ensures
            found == (session_named(session::session_views(sessions@), name@, 0) is Some),
    {
        match Server::session(sessions, name) {
            Some(_) => true,
            None => false,
        }
    }

    /// Keep the sessions that have at least one client attached.
    pub fn attached_sessions(sessions: &Vec<Session>) -> (kept: Vec<Session>)
        ensures
            session::session_views(kept@) == attached(session::session_views(sessions@)),
    {
        let ghost views = session::session_views(sessions@);
        let mut kept: Vec<Session> = Vec::new();
        let mut index: usize = 0;
        assert(views.take(0) =~= Seq::empty());
        assert(session::session_views(kept@) =~= Seq::empty());
        while index < sessions.len()
            invariant
                index <= sessions@.len(),
                views == session::session_views(sessions@),
                session::session_views(kept@) == attached(views.take(index as int)),
            decreases sessions@.len() - index,
        {
            let ghost longer = views.take(index + 1);
            assert(longer.drop_last() =~= views.take(index as int));
            assert(longer.last() == sessions@[index as int]@);
            if sessions[index].is_attached() {
                let ghost before = session::session_views(kept@);
                let copy = sessions[index].copy();
                kept.push(copy);
                assert(session::session_views(kept@) =~= before.push(copy@));
            }
            index += 1;
        }
        assert(views.take(sessions@.len() as int) =~= views);
        kept
    }

    /// Keep the attached sessions of a listing, or none where it failed.
    pub fn attached_sessions_or_empty(listing: Result<Vec<Session>, Error>) -> (kept: Vec<Session>)
        ensures
            match listing {
                Ok(sessions) => session::session_views(kept@) == attached(
                    session::session_views(sessions@),
                ),
                Err(_) => kept@.len() == 0,
            },
    {
        match listing {
            Ok(sessions) => Server::attached_sessions(&sessions),
            Err(_) => Vec::new(),
        }
    }

    /// The command that lists the session with an identity. tmux matches the
    /// identity, and answers with the one row.
    pub fn session_by_id(&self, version: &TmuxVersion, id: &SessionId) -> (command: Command)
        ensures
            command@ == listing::narrowed(
                command::called("list-sessions"@).with_text("-F"@).with_text(
                    listing::asked(listing::intrinsic(ListProfile::Sessions, *version)),
                ),
                Some(listing::equality("session_id"@, target::id_text('$', id@))),
            ),
    {
        let predicate = id.predicate("session_id");
        list_sessions(version, Some(predicate.as_str()))
    }

    /// The command that lists the edges of the window with an identity.
    pub fn window_by_id(&self, version: &TmuxVersion, id: &WindowId) -> (command: Command)
        ensures
            command@ == listing::narrowed(
                listing::scoped(
                    command::called("list-windows"@),
                    listing::ScopeV::Server,
                ).with_text("-F"@).with_text(listing::asked(listing::window_plan(*version))),
                Some(listing::equality("window_id"@, target::id_text('@', id@))),
            ),
    {
        let predicate = id.predicate("window_id");
        list_windows(version, &Scope::Server, Some(predicate.as_str()))
    }

    /// The command that lists the edges of the pane with an identity.
    pub fn pane_by_id(&self, version: &TmuxVersion, id: &PaneId) -> (command: Command)
        ensures
            command@ == listing::narrowed(
                listing::scoped(command::called("list-panes"@), listing::ScopeV::Server).with_text(
                    "-F"@,
                ).with_text(listing::asked(listing::pane_plan(*version))),
                Some(listing::equality("pane_id"@, target::id_text('%', id@))),
            ),
    {
        let predicate = id.predicate("pane_id");
        list_panes(version, &Scope::Server, Some(predicate.as_str()))
    }

    /// Choose the edge that stands for a window: the first one that reaches it.
    /// A window linked into several sessions has one row for each edge.
    pub fn standing_window(edges: &Vec<Window>) -> (choice: Option<&Window>)
        ensures
            choice == if edges@.len() > 0 {
                Some(&edges@[0])
            } else {
                None
            },
    {
        if edges.len() > 0 {
            Some(&edges[0])
        } else {
            None
        }
    }

    /// Read the session with an identity from what tmux answered: the first
    /// row.
    ///
    /// # Errors
    ///
    /// Why tmux refused the listing, or why it does not decode.
    pub fn read_session_by_id(&self, version: &TmuxVersion, result: &CommandResult) -> (found: Result<
        Option<Session>,
        Error,
    >)
        ensures
            match listing::sessions_listed(self@.socket_path, *version, result@) {
                Ok(views) => found is Ok && match found->Ok_0 {
                    Some(session) => views.len() > 0 && session@ == views[0],
                    None => views.len() == 0,
                },
                Err(failure) => found is Err && found->Err_0@ == failure,
            },
    {
        match self.read_sessions(version, result) {
            Ok(rows) => {
                let ghost views = session::session_views(rows@);
                if rows.len() > 0 {
                    assert(views[0] == rows@[0]@);
                    Ok(Some(rows[0].copy()))
                } else {
                    Ok(None)
                }
            },
            Err(error) => Err(error),
        }
    }

    /// Read the window with an identity from what tmux answered: the
    /// window through the first edge that reaches it.
    ///
    /// # Errors
    ///
    /// Why tmux refused the listing, or why it does not decode.
    pub fn read_window_by_id(&self, version: &TmuxVersion, result: &CommandResult) -> (found: Result<
        Option<Window>,
        Error,
    >)
        ensures
            match listing::windows_listed(self@.socket_path, *version, result@) {
                Ok(views) => found is Ok && match found->Ok_0 {
                    Some(window) => views.len() > 0 && window@ == views[0],
                    None => views.len() == 0,
                },
                Err(failure) => found is Err && found->Err_0@ == failure,
            },
    {
        match self.read_windows(version, result) {
            Ok(rows) => {
                let ghost views = window::window_views(rows@);
                match Server::standing_window(&rows) {
                    Some(edge) => {
                        assert(views[0] == rows@[0]@);
                        Ok(Some(edge.copy()))
                    },
                    None => Ok(None),
                }
            },
            Err(error) => Err(error),
        }
    }

    /// Read the pane with an identity from what tmux answered: the first row.
    ///
    /// # Errors
    ///
    /// Why tmux refused the listing, or why it does not decode.
    pub fn read_pane_by_id(&self, version: &TmuxVersion, result: &CommandResult) -> (found: Result<
        Option<Pane>,
        Error,
    >)
        ensures
            match listing::panes_listed(self@.socket_path, *version, result@) {
                Ok(views) => found is Ok && match found->Ok_0 {
                    Some(pane) => views.len() > 0 && pane@ == views[0],
                    None => views.len() == 0,
                },
                Err(failure) => found is Err && found->Err_0@ == failure,
            },
    {
        match self.read_panes(version, result) {
            Ok(rows) => {
                let ghost views = pane::pane_views(rows@);
                if rows.len() > 0 {
                    assert(views[0] == rows@[0]@);
                    Ok(Some(rows[0].copy()))
                } else {
                    Ok(None)
                }
            },
            Err(error) => Err(error),
        }
    }

    /// Find the client attached to this terminal.
    pub fn client<'a>(clients: &'a Vec<Client>, name: &[u8]) -> (found: Option<&'a Client>)
        ensures
            match client_named(client::client_views(clients@), name@, 0) {
                Some(index) => 0 <= index < clients@.len() && found == Some(&clients@[index]),
                None => found is None,
            },
            found matches Some(client) ==> client::client_name(client@.info) == name@,
            found is None ==> forall|i: int|
                0 <= i < clients@.len() ==> client::client_name((#[trigger] clients@[i])@.info)
                    != name@,
    {
        let ghost views = client::client_views(clients@);
        proof {
            law_clients_are_found_by_name(views, name@, 0);
            assert(forall|i: int| 0 <= i < clients@.len() ==> views[i] == (
            #[trigger] clients@[i])@);
        }
        let mut index: usize = 0;
        while index < clients.len()
            invariant
                index <= clients@.len(),
                views == client::client_views(clients@),
                client_named(views, name@, 0) == client_named(views, name@, index as int),
            decreases clients@.len() - index,
        {
            assert(views[index as int] == clients@[index as int]@);
            if bytes_eq(clients[index].name().as_bytes(), name) {
                return Some(&clients[index]);
            }
            index += 1;
        }
        None
    }

    /// Stitch three listings together into the whole hierarchy.
    pub fn hierarchy(sessions: &Vec<Session>, windows: &Vec<Window>, panes: &Vec<Pane>) -> (trees:
        Vec<SessionTree>)
        ensures
            hierarchy::session_tree_views(trees@) == hierarchy::branches(
                session::session_views(sessions@),
                window::window_views(windows@),
                pane::pane_views(panes@),
            ),
            trees@.len() == sessions@.len(),
            forall|i: int|
                0 <= i < sessions@.len() ==> (#[trigger] trees@[i])@.session == sessions@[i]@ && (
                forall|j: int|
                    0 <= j < trees@[i]@.windows.len() ==> (
                    #[trigger] trees@[i]@.windows[j]).window.link.identity.session
                        == session::session_number(sessions@[i]@.info)
                        && trees@[i]@.windows[j].panes.len() > 0),
    {
        let trees = stitch(sessions, windows, panes);
        proof {
            let views = hierarchy::session_tree_views(trees@);
            let sessions = session::session_views(sessions@);
            let windows = window::window_views(windows@);
            let panes = pane::pane_views(panes@);
            if sessions.len() > 0 {
                hierarchy::law_branches_follow_the_sessions(sessions, windows, panes, 0);
            } else {
                assert(views =~= Seq::empty());
            }
            assert forall|i: int| 0 <= i < sessions.len() implies (#[trigger] trees@[i])@.session
                == sessions[i] && (forall|j: int|
                0 <= j < trees@[i]@.windows.len() ==> (
                #[trigger] trees@[i]@.windows[j]).window.link.identity.session
                    == session::session_number(sessions[i].info)
                    && trees@[i]@.windows[j].panes.len() > 0) by {
                hierarchy::law_branches_follow_the_sessions(sessions, windows, panes, i);
                assert(views[i] == trees@[i]@);
                let number = session::session_number(sessions[i].info);
                hierarchy::lemma_windows_are_of_their_session(windows, panes, number);
            }
        }
        trees
    }

    /// Keep the branches of a hierarchy that an expression accepts, in their
    /// order.
    pub fn search(trees: &Vec<SessionTree>, expression: &FilterExpr<SessionTree>) -> (kept: Vec<
        SessionTree,
    >)
        ensures
            hierarchy::session_tree_views(kept@) == hierarchy::accepted(trees@, expression@),
    {
        let mut kept: Vec<SessionTree> = Vec::new();
        let mut index: usize = 0;
        assert(trees@.take(0) =~= Seq::empty());
        assert(hierarchy::session_tree_views(kept@) =~= Seq::empty());
        while index < trees.len()
            invariant
                index <= trees@.len(),
                hierarchy::session_tree_views(kept@) == hierarchy::accepted(
                    trees@.take(index as int),
                    expression@,
                ),
            decreases trees@.len() - index,
        {
            assert(trees@.take(index + 1).drop_last() =~= trees@.take(index as int));
            if expression.matches(&trees[index]) {
                let ghost before = hierarchy::session_tree_views(kept@);
                let copy = trees[index].copy();
                kept.push(copy);
                assert(hierarchy::session_tree_views(kept@) =~= before.push(copy@));
            }
            index += 1;
        }
        assert(trees@.take(trees@.len() as int) =~= trees@);
        kept
    }
}

/// The session that is found by a name is the first one with it, and none is found
/// only where none has it.
pub proof fn law_sessions_are_found_by_name(
    sessions: Seq<session::SessionV>,
    name: Seq<u8>,
    from: int,
)
    requires
        0 <= from,
    ensures
        session_named(sessions, name, from) matches Some(at) ==> {
            &&& from <= at < sessions.len()
            &&& session::session_name(sessions[at].info) == name
            &&& forall|i: int|
                from <= i < at ==> session::session_name((#[trigger] sessions[i]).info) != name
        },
        session_named(sessions, name, from) is None ==> forall|i: int|
            from <= i < sessions.len() ==> session::session_name((#[trigger] sessions[i]).info)
                != name,
    decreases sessions.len() - from,
{
    if from < sessions.len() && session::session_name(sessions[from].info) != name {
        law_sessions_are_found_by_name(sessions, name, from + 1);
    }
}

/// The client that is found by a name is the first one with it, and none is found
/// only where none has it.
pub proof fn law_clients_are_found_by_name(
    clients: Seq<client::ClientV>,
    name: Seq<u8>,
    from: int,
)
    requires
        0 <= from,
    ensures
        client_named(clients, name, from) matches Some(at) ==> {
            &&& from <= at < clients.len()
            &&& client::client_name(clients[at].info) == name
            &&& forall|i: int| from <= i < at ==> client::client_name((#[trigger] clients[i]).info) != name
        },
        client_named(clients, name, from) is None ==> forall|i: int|
            from <= i < clients.len() ==> client::client_name((#[trigger] clients[i]).info) != name,
    decreases clients.len() - from,
{
    if from < clients.len() && client::client_name(clients[from].info) != name {
        law_clients_are_found_by_name(clients, name, from + 1);
    }
}

/// The attached sessions are those of the list with a client, in their order.
pub proof fn law_attached_sessions_are_filtered(sessions: Seq<session::SessionV>)
    ensures
        attached(sessions) == sessions.filter(
            |session: session::SessionV| session::attached(session.info),
        ),
    decreases sessions.len(),
{
    reveal(Seq::filter);
    if sessions.len() > 0 {
        law_attached_sessions_are_filtered(sessions.drop_last());
    } else {
        assert(sessions =~= Seq::empty());
    }
}

} // verus!
