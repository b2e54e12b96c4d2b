//! What is asked of a session, and what the answers mean.

use vstd::prelude::*;
use vstd::string::*;
use vstd::utf8::*;

use crate::command;
use crate::command::Command;
use crate::command::CommandResult;
use crate::error;
use crate::error::Error;
use crate::error::ObjectKind;
use crate::error::ServerConfigurationErrorKind;
use crate::formats::catalog::CatalogField;
use crate::listing;
use crate::listing::index_predicate;
use crate::listing::list_panes;
use crate::listing::list_windows;
use crate::listing::read_panes;
use crate::listing::read_windows;
use crate::listing::Scope;
use crate::output;
use crate::output::read_framed;
use crate::output::read_lossy;
use crate::output::trim_end;
use crate::pane;
use crate::pane::Pane;
use crate::query::expression::FilterExpr;
use crate::query::model;
use crate::session;
use crate::session::Session;
use crate::snapshot::projection;
use crate::target;
use crate::target::PaneId;
use crate::text;
use crate::text::bytes_eq;
use crate::text::str_eq;
use crate::text::TmuxText;
use crate::version::TmuxVersion;
use crate::window;
use crate::window::Window;

verus! {

/// How tmux spells a session's identity.
pub open spec fn spelled(session: session::SessionV) -> Seq<char> {
    target::id_text('$', session::session_number(session.info))
}

/// The name of a window's snapshot.
pub open spec fn window_name(window: projection::WindowProjectionV) -> Seq<u8> {
    window.window.at(CatalogField::WindowName)->Available_0->Text_0
}

/// The position of the first active window.
pub open spec fn first_active(windows: Seq<projection::WindowProjectionV>, from: int) -> Option<int>
    decreases windows.len() - from,
{
    if from < 0 || from >= windows.len() {
        None
    } else if windows[from].link.window_active {
        Some(from)
    } else {
        first_active(windows, from + 1)
    }
}

/// The position of the first window with a name.
pub open spec fn window_named(
    windows: Seq<projection::WindowProjectionV>,
    name: Seq<u8>,
    from: int,
) -> Option<int>
    decreases windows.len() - from,
{
    if from < 0 || from >= windows.len() {
        None
    } else if window_name(windows[from]) == name {
        Some(from)
    } else {
        window_named(windows, name, from + 1)
    }
}

/// The windows that an expression accepts, in their order.
pub open spec fn accepted(windows: Seq<Window>, expression: model::ExprV) -> Seq<
    projection::WindowProjectionV,
>
    decreases windows.len(),
{
    if windows.len() == 0 {
        Seq::empty()
    } else {
        let earlier = accepted(windows.drop_last(), expression);
        if model::accepts(expression, &windows.last()) {
            earlier.push(windows.last()@)
        } else {
            earlier
        }
    }
}

/// The position of the first snapshot of a session.
pub open spec fn snapshot_at(sessions: Seq<session::SessionV>, number: u32, from: int) -> Option<int>
    decreases sessions.len() - from,
{
    if from < 0 || from >= sessions.len() {
        None
    } else if session::session_number(sessions[from].info) == number {
        Some(from)
    } else {
        snapshot_at(sessions, number, from + 1)
    }
}

/// Whether tmux said that there is no window to move to.
pub open spec fn no_neighbour(said: Seq<char>) -> bool {
    ||| said == "no next window"@
    ||| said == "no previous window"@
    ||| said == "no last window"@
}

/// Report whether tmux said that there is no window to move to.
pub fn is_no_neighbour(said: &str) -> (is: bool)
    ensures
        is == no_neighbour(output::trimmed_end(said@)),
{
    let said = trim_end(said);
    str_eq(said, "no next window") || str_eq(said, "no previous window") || str_eq(
        said,
        "no last window",
    )
}

/// Report whether tmux said that it has no client to act on.
pub fn is_no_client(said: &str) -> (is: bool)
    ensures
        is == (output::trimmed_end(said@) == "no current client"@),
{
    str_eq(trim_end(said), "no current client")
}

/// What a move to another window came to.
#[derive(Clone, Copy, Debug, PartialEq, Eq, Structural)]
pub enum Step {
    /// Another window is active.
    Moved,
    /// There is no window to move to.
    NoNeighbour,
}

/// The error of an operation that took effect and left the session without what
/// it asks for.
pub open spec fn gone_after(
    session: session::SessionV,
    operation: Seq<char>,
) -> error::ErrorV {
    error::ErrorV::AfterEffect {
        operation,
        source: Box::new(
            error::ErrorV::ObjectGone { kind: ObjectKind::Session, id: spelled(session) },
        ),
    }
}

/// The pane that a `TMUX_PANE` value names.
pub open spec fn pane_of_env(value: Option<Seq<u8>>) -> Result<
    u32,
    ServerConfigurationErrorKind,
> {
    match value {
        None => Err(ServerConfigurationErrorKind::NotInsideTmux),
        Some(value) => match target::id_number(37, value) {
            Some(number) => Ok(number),
            None => Err(ServerConfigurationErrorKind::MalformedTmuxVariable),
        },
    }
}

impl Session {
    /// Read the pane that a `TMUX_PANE` value names.
    ///
    /// # Errors
    ///
    /// [`ServerConfigurationErrorKind::NotInsideTmux`] for no value, and
    /// [`ServerConfigurationErrorKind::MalformedTmuxVariable`] for one that is
    /// not a pane identity.
    pub fn from_env_value(value: Option<&[u8]>) -> (pane: Result<PaneId, Error>)
        ensures
            match pane_of_env(
                match value {
                    Some(value) => Some(value@),
                    None => None,
                },
            ) {
                Ok(number) => pane is Ok && pane->Ok_0@ == number,
                Err(kind) => error::failure(pane) == Some(
                    error::ErrorV::InvalidServerConfiguration(kind),
                ),
            },
    {
        match value {
            None => Err(
                Error::InvalidServerConfiguration(ServerConfigurationErrorKind::NotInsideTmux),
            ),
            Some(value) => match PaneId::parse(value) {
                Some(id) => Ok(id),
                None => Err(
                    Error::InvalidServerConfiguration(
                        ServerConfigurationErrorKind::MalformedTmuxVariable,
                    ),
                ),
            },
        }
    }

    /// The command that lists the session's windows.
    pub fn windows(&self, version: &TmuxVersion) -> (command: Command)
        ensures
            command@ == listing::scoped(
                command::called("list-windows"@),
                listing::ScopeV::Target(spelled(self@)),
            ).with_text("-F"@).with_text(listing::asked(listing::window_plan(*version))),
    {
        let target = self.id().text();
        list_windows(version, &Scope::Target(target.as_str()), None)
    }

    /// Read the session's windows, in tmux's own order.
    ///
    /// # Errors
    ///
    /// Why tmux refused the listing, or why it does not decode.
    pub fn read_windows(&self, version: &TmuxVersion, result: &CommandResult) -> (listing: Result<
        Vec<Window>,
        Error,
    >)
        ensures
            match listing::windows_listed(self@.server, *version, result@) {
                Ok(views) => listing is Ok && window::window_views(listing->Ok_0@) == views,
                Err(failure) => listing is Err && listing->Err_0@ == failure,
            },
    {
        read_windows(self.server_identity(), version, result)
    }

    /// Keep the windows of a listing, or none where it failed.
    pub fn windows_or_empty(listing: Result<Vec<Window>, Error>) -> (windows: Vec<Window>)
        ensures
            match listing {
                Ok(listed) => windows == listed,
                Err(_) => windows@.len() == 0,
            },
    {
        match listing {
            Ok(windows) => windows,
            Err(_) => Vec::new(),
        }
    }

    /// The command that lists the panes of the session's windows.
    pub fn panes(&self, version: &TmuxVersion) -> (command: Command)
        ensures
            command@ == listing::scoped(
                command::called("list-panes"@),
                listing::ScopeV::SessionTarget(spelled(self@)),
            ).with_text("-F"@).with_text(listing::asked(listing::pane_plan(*version))),
    {
        let target = self.id().text();
        list_panes(version, &Scope::SessionTarget(target.as_str()), None)
    }

    /// Read the panes of the session's windows, in tmux's own order.
    ///
    /// # Errors
    ///
    /// Why tmux refused the listing, or why it does not decode.
    pub fn read_panes(&self, version: &TmuxVersion, result: &CommandResult) -> (listing: Result<
        Vec<Pane>,
        Error,
    >)
        ensures
            match listing::panes_listed(self@.server, *version, result@) {
                Ok(views) => listing is Ok && pane::pane_views(listing->Ok_0@) == views,
                Err(failure) => listing is Err && listing->Err_0@ == failure,
            },
    {
        read_panes(self.server_identity(), version, result)
    }

    /// Keep the panes of a listing, or none where it failed.
    pub fn panes_or_empty(listing: Result<Vec<Pane>, Error>) -> (panes: Vec<Pane>)
        ensures
            match listing {
                Ok(listed) => panes == listed,
                Err(_) => panes@.len() == 0,
            },
    {
        match listing {
            Ok(panes) => panes,
            Err(_) => Vec::new(),
        }
    }

    /// Keep the windows that an expression accepts.
    pub fn search_windows(windows: &Vec<Window>, expression: &FilterExpr<Window>) -> (kept: Vec<
        Window,
    >)
        ensures
            window::window_views(kept@) == accepted(windows@, expression@),
    {
        let mut kept: Vec<Window> = Vec::new();
        let mut index: usize = 0;
        assert(windows@.take(0) =~= Seq::empty());
        assert(window::window_views(kept@) =~= Seq::empty());
        while index < windows.len()
            invariant
                index <= windows@.len(),
                window::window_views(kept@) == accepted(windows@.take(index as int), expression@),
            decreases windows@.len() - index,
        {
            assert(windows@.take(index + 1).drop_last() =~= windows@.take(index as int));
            if expression.matches(&windows[index]) {
                let ghost before = window::window_views(kept@);
                let copy = windows[index].copy();
                kept.push(copy);
                assert(window::window_views(kept@) =~= before.push(copy@));
            }
            index += 1;
        }
        assert(windows@.take(windows@.len() as int) =~= windows@);
        kept
    }

    /// Keep the windows of a listing that an expression accepts, or none where
    /// the listing failed.
    pub fn search_windows_or_empty(
        listing: Result<Vec<Window>, Error>,
        expression: &FilterExpr<Window>,
    ) -> (kept: Vec<Window>)
        ensures
            match listing {
                Ok(windows) => window::window_views(kept@) == accepted(windows@, expression@),
                Err(_) => kept@.len() == 0,
            },
    {
        match listing {
            Ok(windows) => Session::search_windows(&windows, expression),
            Err(_) => Vec::new(),
        }
    }

    /// The command that moves to the next window.
    pub fn next_window(&self) -> (command: Command)
        ensures
            command@ == command::called("next-window"@).with_text("-t"@).with_text(spelled(self@)),
    {
        Command::new("next-window").text("-t").text(self.id().text().as_str())
    }

    /// The command that moves to the previous window.
    pub fn previous_window(&self) -> (command: Command)
        ensures
            command@ == command::called("previous-window"@).with_text("-t"@).with_text(
                spelled(self@),
            ),
    {
        Command::new("previous-window").text("-t").text(self.id().text().as_str())
    }

    /// The command that moves to the window that was active before.
    pub fn last_window(&self) -> (command: Command)
        ensures
            command@ == command::called("last-window"@).with_text("-t"@).with_text(spelled(self@)),
    {
        Command::new("last-window").text("-t").text(self.id().text().as_str())
    }

    /// Judge a move to another window. A session without another window is not
    /// a failure.
    ///
    /// # Errors
    ///
    /// Why tmux refused for any other reason.
    pub fn judge_step(operation: &'static str, result: &CommandResult) -> (step: Result<
        Step,
        Error,
    >)
        ensures
            if result@.accepted() {
                step == Ok::<Step, Error>(Step::Moved)
            } else if no_neighbour(output::trimmed_end(output::lossy_text(result@.stderr))) {
                step == Ok::<Step, Error>(Step::NoNeighbour)
            } else {
                error::failure(step) == Some(error::refused(operation@, result@))
            },
    {
        if result.success() {
            return Ok(Step::Moved);
        }
        if is_no_neighbour(read_lossy(result.stderr()).as_str()) {
            return Ok(Step::NoNeighbour);
        }
        Err(Error::from_refused_result(operation, result))
    }

    /// Settle a move that tmux accepted: report the window that became active.
    ///
    /// # Errors
    ///
    /// [`Error::AfterEffect`] where the windows cannot be listed, or none of
    /// them is active.
    pub fn settle_step(&self, operation: &'static str, listing: Result<Vec<Window>, Error>) -> (
    outcome: Result<Window, Error>)
        ensures
            match listing {
                Err(failure) => error::failure(outcome) == Some(
                    error::ErrorV::AfterEffect {
                        operation: operation@,
                        source: Box::new(failure@),
                    },
                ),
                Ok(windows) => match first_active(window::window_views(windows@), 0) {
                    Some(index) => outcome is Ok && outcome->Ok_0@ == window::window_views(
                        windows@,
                    )[index],
                    None => error::failure(outcome) == Some(
                        gone_after(self@, operation@),
                    ),
                },
            },
    {
        let windows = match listing {
            Ok(windows) => windows,
            Err(failure) => return Err(failure.after_effect(operation)),
        };
        match Session::active_window(&windows) {
            Some(window) => Ok(window.copy()),
            None => Err(
                (Error::ObjectGone { kind: ObjectKind::Session, id: self.id().text() }).after_effect(
                    operation,
                ),
            ),
        }
    }

    /// Find the active window.
    pub fn active_window(windows: &Vec<Window>) -> (found: Option<&Window>)
        ensures
            match first_active(window::window_views(windows@), 0) {
                Some(index) => 0 <= index < windows@.len() && found == Some(&windows@[index]),
                None => found is None,
            },
            found matches Some(window) ==> window@.link.window_active,
            found is None ==> forall|i: int|
                0 <= i < windows@.len() ==> !(#[trigger] windows@[i])@.link.window_active,
    {
        let ghost views = window::window_views(windows@);
        proof {
            law_the_first_active_window_is_found(views, 0);
            assert(forall|i: int| 0 <= i < windows@.len() ==> views[i] == (
            #[trigger] windows@[i])@);
        }
        let mut index: usize = 0;
        while index < windows.len()
            invariant
                index <= windows@.len(),
                views == window::window_views(windows@),
                first_active(views, 0) == first_active(views, index as int),
            decreases windows@.len() - index,
        {
            assert(views[index as int] == windows@[index as int]@);
            if windows[index].is_active() {
                return Some(&windows[index]);
            }
            index += 1;
        }
        None
    }

    /// Find the window with this exact name. A session can hold several
    /// windows with one name; the first in tmux's order is returned.
    pub fn window<'a>(windows: &'a Vec<Window>, name: &[u8]) -> (found: Option<&'a Window>)
        ensures
            match window_named(window::window_views(windows@), name@, 0) {
                Some(index) => 0 <= index < windows@.len() && found == Some(&windows@[index]),
                None => found is None,
            },
            found matches Some(window) ==> window_name(window@) == name@,
            found is None ==> forall|i: int|
                0 <= i < windows@.len() ==> window_name((#[trigger] windows@[i])@) != name@,
    {
        let ghost views = window::window_views(windows@);
        proof {
            law_windows_are_found_by_name(views, name@, 0);
            assert(forall|i: int| 0 <= i < windows@.len() ==> views[i] == (
            #[trigger] windows@[i])@);
        }
        let mut index: usize = 0;
        while index < windows.len()
            invariant
                index <= windows@.len(),
                views == window::window_views(windows@),
                window_named(views, name@, 0) == window_named(views, name@, index as int),
            decreases windows@.len() - index,
        {
            assert(views[index as int] == windows@[index as int]@);
            if bytes_eq(windows[index].name().as_bytes(), name) {
                return Some(&windows[index]);
            }
            index += 1;
        }
        None
    }

    /// The command that lists the session's window at an index. tmux matches
    /// the index, and answers with the one row.
    pub fn window_at(&self, version: &TmuxVersion, index: i32) -> (command: Command)
        ensures
            command@ == listing::narrowed(
                listing::scoped(
                    command::called("list-windows"@),
                    listing::ScopeV::Target(spelled(self@)),
                ).with_text("-F"@).with_text(listing::asked(listing::window_plan(*version))),
                Some(
                    listing::equality(
                        "window_index"@,
                        crate::decimal::signed_decimal(index as int),
                    ),
                ),
            ),
    {
        let target = self.id().text();
        let predicate = index_predicate(index);
        list_windows(version, &Scope::Target(target.as_str()), Some(predicate.as_str()))
    }

    /// Read the session's window at an index from what tmux answered: the first
    /// row.
    ///
    /// # Errors
    ///
    /// Why tmux refused the listing, or why it does not decode.
    pub fn read_window_at(&self, version: &TmuxVersion, result: &CommandResult) -> (found: Result<
        Option<Window>,
        Error,
    >)
        ensures
            match listing::windows_listed(self@.server, *version, result@) {
                Ok(views) => found is Ok && match found->Ok_0 {
                    Some(window) => views.len() > 0 && window@ == views[0],
                    None => views.len() == 0,
                },
                Err(failure) => found is Err && found->Err_0@ == failure,
            },
    {
        match self.read_windows(version, result) {
            Ok(rows) => {
                let ghost views = window::window_views(rows@);
                if rows.len() > 0 {
                    assert(views[0] == rows@[0]@);
                    Ok(Some(rows[0].copy()))
                } else {
                    Ok(None)
                }
            },
            Err(error) => Err(error),
        }
    }

    /// Replace the handle's snapshot with the session's current state.
    ///
    /// # Errors
    ///
    /// [`Error::ObjectGone`] when the session is not among the listed ones; the
    /// handle then keeps its snapshot.
    pub fn refresh(&mut self, sessions: &Vec<Session>) -> (result: Result<(), Error>)
        ensures
            match snapshot_at(
                session::session_views(sessions@),
                session::session_number(old(self)@.info),
                0,
            ) {
                Some(index) => result is Ok && final(self)@ == (session::SessionV {
                    server: old(self)@.server,
                    info: session::session_views(sessions@)[index].info,
                }),
                None => final(self)@ == old(self)@ && error::failure(result) == Some(
                    error::ErrorV::ObjectGone {
                        kind: ObjectKind::Session,
                        id: spelled(old(self)@),
                    },
                ),
            },
            final(self)@.server == old(self)@.server,
            session::session_number(final(self)@.info) == session::session_number(
                old(self)@.info,
            ),
            result is Err ==> final(self)@ == old(self)@,
            result is Err <==> forall|i: int|
                0 <= i < sessions@.len() ==> session::session_number(
                    (#[trigger] sessions@[i])@.info,
                ) != session::session_number(old(self)@.info),
    {
        proof {
            let views = session::session_views(sessions@);
            law_sessions_are_found_by_identity(
                views,
                session::session_number(self@.info),
                0,
            );
            assert(forall|i: int| 0 <= i < sessions@.len() ==> views[i] == (
            #[trigger] sessions@[i])@);
        }
        let ghost views = session::session_views(sessions@);
        let ghost before = self@;
        let id = *self.id();
        let mut index: usize = 0;
        while index < sessions.len()
            invariant
                index <= sessions@.len(),
                views == session::session_views(sessions@),
                self@ == before,
                before == old(self)@,
                id@ == session::session_number(before.info),
                snapshot_at(views, id@, 0) == snapshot_at(views, id@, index as int),
            decreases sessions@.len() - index,
        {
            assert(views[index as int] == sessions@[index as int]@);
            if sessions[index].id().same(&id) {
                let refreshed = Session::new(
                    self.server_identity().copy(),
                    sessions[index].info().copy(),
                );
                *self = refreshed;
                return Ok(());
            }
            index += 1;
        }
        Err(Error::ObjectGone { kind: ObjectKind::Session, id: self.id().text() })
    }

    /// The session with its current state.
    ///
    /// # Errors
    ///
    /// The reasons of [`Session::refresh`].
    pub fn refreshed(&self, sessions: &Vec<Session>) -> (refreshed: Result<Session, Error>)
        ensures
            match snapshot_at(
                session::session_views(sessions@),
                session::session_number(self@.info),
                0,
            ) {
                Some(index) => refreshed is Ok && refreshed->Ok_0@ == (session::SessionV {
                    server: self@.server,
                    info: session::session_views(sessions@)[index].info,
                }),
                None => error::failure(refreshed) == Some(
                    error::ErrorV::ObjectGone { kind: ObjectKind::Session, id: spelled(self@) },
                ),
            },
    {
        let mut refreshed = self.copy();
        match refreshed.refresh(sessions) {
            Ok(()) => Ok(refreshed),
            Err(failure) => Err(failure),
        }
    }

    /// The command that renames the session.
    pub fn rename(&self, name: Vec<u8>) -> (command: Command)
        ensures
            command@ == command::called("rename-session"@).with_text("-t"@).with_text(
                spelled(self@),
            ).with(name@),
    {
        Command::new("rename-session").text("-t").text(self.id().text().as_str()).arg(name)
    }

    /// Settle a rename that tmux accepted: the handle takes the session's
    /// current state.
    ///
    /// # Errors
    ///
    /// [`Error::AfterEffect`] where the sessions cannot be listed, or the
    /// session is not among them.
    pub fn settle_rename(&mut self, listing: Result<Vec<Session>, Error>) -> (result: Result<
        (),
        Error,
    >)
        ensures
            match listing {
                Err(failure) => final(self)@ == old(self)@ && error::failure(result) == Some(
                    error::ErrorV::AfterEffect {
                        operation: "rename-session"@,
                        source: Box::new(failure@),
                    },
                ),
                Ok(sessions) => match snapshot_at(
                    session::session_views(sessions@),
                    session::session_number(old(self)@.info),
                    0,
                ) {
                    Some(index) => result is Ok && final(self)@ == (session::SessionV {
                        server: old(self)@.server,
                        info: session::session_views(sessions@)[index].info,
                    }),
                    None => final(self)@ == old(self)@ && error::failure(result) == Some(
                        gone_after(old(self)@, "rename-session"@),
                    ),
                },
            },
    {
        match listing {
            Err(failure) => Err(failure.after_effect("rename-session")),
            Ok(sessions) => match self.refresh(&sessions) {
                Ok(()) => Ok(()),
                Err(failure) => Err(failure.after_effect("rename-session")),
            },
        }
    }

    /// The command that kills the session.
    pub fn kill(&self) -> (command: Command)
        ensures
            command@ == command::called("kill-session"@).with_text("-t"@).with_text(spelled(self@)),
    {
        Command::new("kill-session").text("-t").text(self.id().text().as_str())
    }

    /// Aim a command at the session. The target stands directly behind the
    /// subcommand, because tmux stops reading flags at the first positional.
    pub fn cmd(&self, command: Command) -> (aimed: Command)
        ensures
            aimed@ == command@.aimed(spelled(self@)),
    {
        command.targeting(self.id().text().as_str())
    }

    /// The command that expands a format on the session.
    pub fn format(&self, template: &str) -> (command: Command)
        ensures
            command@ == command::called("display-message"@).with_text("-p"@).with_text(
                template@,
            ).aimed(spelled(self@)),
    {
        self.cmd(Command::new("display-message").text("-p").text(template))
    }

    /// Read what a format expands to. The line feed that tmux ends its output
    /// with frames it rather than belonging to the expansion.
    ///
    /// # Errors
    ///
    /// Why tmux refused the format.
    pub fn read_format(result: &CommandResult) -> (value: Result<TmuxText, Error>)
        ensures
            match error::refusal("display-message"@, result@) {
                Some(failure) => value is Err && value->Err_0@ == failure,
                None => value is Ok && value->Ok_0@ == output::unframed(result@.stdout),
            },
    {
        if let Err(failure) = result.require("display-message") {
            return Err(failure);
        }
        Ok(read_framed(result.stdout()))
    }

    /// The command that shows a message to the session's clients.
    pub fn display(&self, message: &str) -> (command: Command)
        ensures
            command@ == command::called("display-message"@).with_text(message@).aimed(
                spelled(self@),
            ),
    {
        self.cmd(Command::new("display-message").text(message))
    }

    /// The command that locks the session's clients.
    pub fn lock(&self) -> (command: Command)
        ensures
            command@ == command::called("lock-session"@).with_text("-t"@).with_text(spelled(self@)),
    {
        Command::new("lock-session").text("-t").text(self.id().text().as_str())
    }

    /// The command that detaches every client from the session.
    pub fn detach_clients(&self) -> (command: Command)
        ensures
            command@ == command::called("detach-client"@).with_text("-s"@).with_text(
                spelled(self@),
            ),
    {
        Command::new("detach-client").text("-s").text(self.id().text().as_str())
    }

    /// Judge a detach. tmux refuses when it has no client to act on, which is
    /// the state that was asked for.
    ///
    /// # Errors
    ///
    /// Why tmux refused for any other reason.
    pub fn judge_detach(result: &CommandResult) -> (outcome: Result<(), Error>)
        ensures
            error::failure(outcome) == if output::trimmed_end(output::lossy_text(result@.stderr))
                == "no current client"@ {
                None
            } else {
                error::refusal("detach-client"@, result@)
            },
    {
        if result.success() || is_no_client(read_lossy(result.stderr()).as_str()) {
            return Ok(());
        }
        Err(Error::from_refused_result("detach-client", result))
    }

    /// Settle an operation on a window that was created for it and killed
    /// behind it. Where both failed, the operation's failure is the one that
    /// counts.
    ///
    /// # Errors
    ///
    /// Why the operation failed, or why the window could not be killed.
    pub fn settle_scope<T, E>(outcome: Result<T, E>, cleanup: Result<(), E>) -> (settled: Result<
        T,
        E,
    >)
        ensures
            settled == match (outcome, cleanup) {
                (Ok(_), Err(failure)) => Err(failure),
                _ => outcome,
            },
    {
        match (outcome, cleanup) {
            (Ok(_), Err(failure)) => Err(failure),
            (outcome, _) => outcome,
        }
    }
}

/// A target stands in front of every argument that a command had.
pub proof fn law_targets_stand_in_front(command: command::CommandV, target: Seq<char>)
    ensures
        command.aimed(target).name == command.name,
        command.aimed(target).arguments.len() == command.arguments.len() + 2,
        command.aimed(target).arguments[0].bytes == encode_utf8("-t"@),
        command.aimed(target).arguments[1].bytes == encode_utf8(target),
        command.aimed(target).arguments.skip(2) == command.arguments,
{
    assert(command.aimed(target).arguments.skip(2) =~= command.arguments);
}

/// The active window that is found is the first one, and none is found only where
/// none is active.
pub proof fn law_the_first_active_window_is_found(
    windows: Seq<projection::WindowProjectionV>,
    from: int,
)
    requires
        0 <= from,
    ensures
        first_active(windows, from) matches Some(at) ==> {
            &&& from <= at < windows.len()
            &&& windows[at].link.window_active
            &&& forall|i: int| from <= i < at ==> !(#[trigger] windows[i]).link.window_active
        },
        first_active(windows, from) is None ==> forall|i: int|
            from <= i < windows.len() ==> !(#[trigger] windows[i]).link.window_active,
    decreases windows.len() - from,
{
    if from < windows.len() && !windows[from].link.window_active {
        law_the_first_active_window_is_found(windows, from + 1);
    }
}

/// The window that is found by a name is the first one with it, and none is found
/// only where none has it.
pub proof fn law_windows_are_found_by_name(
    windows: Seq<projection::WindowProjectionV>,
    name: Seq<u8>,
    from: int,
)
    requires
        0 <= from,
    ensures
        window_named(windows, name, from) matches Some(at) ==> {
            &&& from <= at < windows.len()
            &&& window_name(windows[at]) == name
            &&& forall|i: int| from <= i < at ==> window_name((#[trigger] windows[i])) != name
        },
        window_named(windows, name, from) is None ==> forall|i: int|
            from <= i < windows.len() ==> window_name((#[trigger] windows[i])) != name,
    decreases windows.len() - from,
{
    if from < windows.len() && window_name(windows[from]) != name {
        law_windows_are_found_by_name(windows, name, from + 1);
    }
}

/// The session that is found by an identity is the first one with it, and none is
/// found only where none has it.
pub proof fn law_sessions_are_found_by_identity(
    sessions: Seq<session::SessionV>,
    number: u32,
    from: int,
)
    requires
        0 <= from,
    ensures
        snapshot_at(sessions, number, from) matches Some(at) ==> {
            &&& from <= at < sessions.len()
            &&& session::session_number(sessions[at].info) == number
            &&& forall|i: int| from <= i < at ==> session::session_number((#[trigger] sessions[i]).info) != number
        },
        snapshot_at(sessions, number, from) is None ==> forall|i: int|
            from <= i < sessions.len() ==> session::session_number((#[trigger] sessions[i]).info) != number,
    decreases sessions.len() - from,
{
    if from < sessions.len() && session::session_number(sessions[from].info) != number {
        law_sessions_are_found_by_identity(sessions, number, from + 1);
    }
}

/// The windows that an expression accepts are those of the list that match it,
/// in their order.
pub proof fn law_accepted_windows_are_filtered(windows: Seq<Window>, expression: model::ExprV)
    ensures
        accepted(windows, expression) == windows.filter(
            |window: Window| model::accepts(expression, &window),
        ).map_values(|window: Window| window@),
    decreases windows.len(),
{
    let keep = |window: Window| model::accepts(expression, &window);
    let read = |window: Window| window@;
    text::lemma_kept_values(windows, keep, read);
    if windows.len() > 0 {
        law_accepted_windows_are_filtered(windows.drop_last(), expression);
    }
}

/// A pane is named by the variable that tmux sets for it: a percent sign and
/// its number. Without the variable the process is not inside tmux.
pub proof fn law_panes_are_named_by_their_variable(number: u32, value: Seq<u8>)
    ensures
        pane_of_env(None) == Err::<u32, ServerConfigurationErrorKind>(
            ServerConfigurationErrorKind::NotInsideTmux,
        ),
        pane_of_env(Some(encode_utf8(target::id_text('%', number)))) == Ok::<
            u32,
            ServerConfigurationErrorKind,
        >(number),
        target::id_number(37, value) is None ==> pane_of_env(Some(value)) == Err::<
            u32,
            ServerConfigurationErrorKind,
        >(ServerConfigurationErrorKind::MalformedTmuxVariable),
        pane_of_env(Some(value)) is Ok ==> value.len() > 1 && value[0] == 37,
{
    target::law_identity_spellings_round_trip('%', number);
}

/// What tmux says where a session has no neighbour to select.
pub proof fn law_missing_neighbours_are_said(said: Seq<char>)
    ensures
        no_neighbour("no next window"@),
        no_neighbour("no previous window"@),
        no_neighbour("no last window"@),
        no_neighbour(said) ==> said == "no next window"@ || said == "no previous window"@ || said
            == "no last window"@,
{
}

/// A session that is gone behind an operation is reported as gone, by its
/// identity, and with the operation that had taken effect.
pub proof fn law_sessions_gone_behind_an_operation(
    session: session::SessionV,
    operation: Seq<char>,
)
    ensures
        gone_after(session, operation) is AfterEffect,
        gone_after(session, operation)->operation == operation,
        *gone_after(session, operation)->source == (error::ErrorV::ObjectGone {
            kind: ObjectKind::Session,
            id: target::id_text('$', session::session_number(session.info)),
        }),
        spelled(session) == target::id_text('$', session::session_number(session.info)),
{
}

} // verus!
