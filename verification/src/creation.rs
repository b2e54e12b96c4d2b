//! Reading back what was created.
//!
//! tmux prints what it creates in the format that it is given, so that the
//! handle describes exactly that object. By then the command took effect: what
//! goes wrong with the reading is marked as coming after it.

use vstd::prelude::*;
use vstd::string::*;

use crate::command;
use crate::command::Command;
use crate::command::CommandResult;
use crate::error;
use crate::error::Error;
use crate::formats::error::ListProfile;
use crate::formats::plan::FormatPlan;
use crate::listing;
use crate::listing::read_printed_sessions;
use crate::listing::read_printed_windows;
use crate::server::lifecycle;
use crate::server::lifecycle::NewSessionOptions;
use crate::server::Server;
use crate::session;
use crate::session::new_window;
use crate::session::new_window::NewWindowOptions;
use crate::session::Session;
use crate::snapshot::projection;
use crate::snapshot::projection::window_projection_plan;
use crate::target;
use crate::version::TmuxVersion;
use crate::window;
use crate::window::Window;

verus! {

/// A failure that came after a command took effect.
pub open spec fn after(operation: Seq<char>, failure: error::ErrorV) -> error::ErrorV {
    error::ErrorV::AfterEffect { operation, source: Box::new(failure) }
}

/// The session that a command created.
pub open spec fn session_created(
    server: Seq<u8>,
    version: TmuxVersion,
    result: command::ResultV,
) -> Result<session::SessionV, error::ErrorV> {
    match listing::sessions_printed("new-session"@, server, version, result) {
        Ok(sessions) => if sessions.len() > 0 {
            Ok(sessions[0])
        } else {
            Err(
                after(
                    "new-session"@,
                    error::ErrorV::UnreadableFormatValue { format: "#{session_id}"@ },
                ),
            )
        },
        Err(failure) => if result.accepted() {
            Err(after("new-session"@, failure))
        } else {
            Err(failure)
        },
    }
}

/// The window that a command created.
pub open spec fn window_created(
    server: Seq<u8>,
    version: TmuxVersion,
    result: command::ResultV,
) -> Result<projection::WindowProjectionV, error::ErrorV> {
    match listing::windows_printed("new-window"@, server, version, result) {
        Ok(windows) => if windows.len() > 0 {
            Ok(windows[0])
        } else {
            Err(
                after(
                    "new-window"@,
                    error::ErrorV::UnreadableFormatValue { format: "#{window_id}"@ },
                ),
            )
        },
        Err(failure) => if result.accepted() {
            Err(after("new-window"@, failure))
        } else {
            Err(failure)
        },
    }
}

impl Server {
    /// The command that creates a detached session and prints it.
    pub fn new_session(&self, version: &TmuxVersion, options: NewSessionOptions) -> (command:
        Command)
        ensures
            command@ == lifecycle::creation(
                options@,
                listing::asked(listing::intrinsic(ListProfile::Sessions, *version)),
            ),
    {
        let plan = FormatPlan::for_profile(ListProfile::Sessions, version);
        options.into_command(plan.template().as_str())
    }

    /// Read the session that a command created.
    ///
    /// # Errors
    ///
    /// Why tmux refused the command, or [`Error::AfterEffect`] where what it
    /// printed is not a session.
    pub fn read_new_session(&self, version: &TmuxVersion, result: &CommandResult) -> (created:
        Result<Session, Error>)
        ensures
            match session_created(self@.socket_path, *version, result@) {
                Ok(view) => created is Ok && created->Ok_0@ == view,
                Err(failure) => created is Err && created->Err_0@ == failure,
            },
    {
        match read_printed_sessions("new-session", self.identity(), version, result) {
            Ok(sessions) => {
                if sessions.len() == 0 {
                    return Err(
                        (Error::UnreadableFormatValue { format: "#{session_id}" }).after_effect(
                            "new-session",
                        ),
                    );
                }
                assert(session::session_views(sessions@)[0] == sessions@[0]@);
                Ok(sessions[0].copy())
            },
            Err(failure) => if result.success() {
                Err(failure.after_effect("new-session"))
            } else {
                Err(failure)
            },
        }
    }
}

impl Session {
    /// The command that creates a window in the session and prints it.
    pub fn new_window(&self, version: &TmuxVersion, options: NewWindowOptions) -> (command: Command)
        ensures
            command@ == new_window::creation(
                options@,
                target::id_text('$', session::session_number(self@.info)),
                listing::asked(listing::window_plan(*version)),
            ),
    {
        let plan = match window_projection_plan(version) {
            Ok(plan) => plan,
            Err(_) => vstd::pervasive::unreached(),
        };
        options.into_command(self.id().text().as_str(), plan.template().as_str())
    }

    /// Read the window that a command created.
    ///
    /// # Errors
    ///
    /// Why tmux refused the command, or [`Error::AfterEffect`] where what it
    /// printed is not a window.
    pub fn read_new_window(&self, version: &TmuxVersion, result: &CommandResult) -> (created:
        Result<Window, Error>)
        ensures
            match window_created(self@.server, *version, result@) {
                Ok(view) => created is Ok && created->Ok_0@ == view,
                Err(failure) => created is Err && created->Err_0@ == failure,
            },
    {
        match read_printed_windows("new-window", self.server_identity(), version, result) {
            Ok(windows) => {
                if windows.len() == 0 {
                    return Err(
                        (Error::UnreadableFormatValue { format: "#{window_id}" }).after_effect(
                            "new-window",
                        ),
                    );
                }
                assert(window::window_views(windows@)[0] == windows@[0]@);
                Ok(windows[0].copy())
            },
            Err(failure) => if result.success() {
                Err(failure.after_effect("new-window"))
            } else {
                Err(failure)
            },
        }
    }
}

/// What was created is the first row that tmux printed. Where it accepted the
/// command and printed nothing that can be read, the creation had taken effect
/// all the same, and where it refused the command it had not.
pub proof fn law_creations_are_read_from_the_first_row(
    server: Seq<u8>,
    version: TmuxVersion,
    result: command::ResultV,
)
    ensures
        session_created(server, version, result) matches Ok(session) ==> result.accepted() && ({
            let printed = listing::sessions_printed("new-session"@, server, version, result);
            printed is Ok && printed->Ok_0.len() > 0 && printed->Ok_0[0] == session
        }),
        window_created(server, version, result) matches Ok(window) ==> result.accepted() && ({
            let printed = listing::windows_printed("new-window"@, server, version, result);
            printed is Ok && printed->Ok_0.len() > 0 && printed->Ok_0[0] == window
        }),
        !result.accepted() ==> session_created(server, version, result) == Err::<
            session::SessionV,
            error::ErrorV,
        >(error::refused("new-session"@, result)) && window_created(server, version, result)
            == Err::<projection::WindowProjectionV, error::ErrorV>(
            error::refused("new-window"@, result),
        ),
        result.accepted() ==> {
            &&& session_created(server, version, result) matches Err(failure) ==> failure
                is AfterEffect && failure->operation == "new-session"@
            &&& window_created(server, version, result) matches Err(failure) ==> failure
                is AfterEffect && failure->operation == "new-window"@
        },
        listing::sessions_printed("new-session"@, server, version, result) matches Ok(printed)
            ==> (session_created(server, version, result) is Ok <==> printed.len() > 0),
        listing::windows_printed("new-window"@, server, version, result) matches Ok(printed)
            ==> (window_created(server, version, result) is Ok <==> printed.len() > 0),
        result.accepted() ==> {
            &&& listing::sessions_printed("new-session"@, server, version, result) matches Err(
                failure,
            ) ==> *session_created(server, version, result)->Err_0->source == failure
            &&& listing::windows_printed("new-window"@, server, version, result) matches Err(
                failure,
            ) ==> *window_created(server, version, result)->Err_0->source == failure
        },
{
}

} // verus!
