//! The options, hooks and environment of a session.

use vstd::prelude::*;
use vstd::utf8::*;

use crate::command;
use crate::command::Command;
use crate::error;
use crate::error::Error;
use crate::server::settings;
use crate::server::settings::EnvironmentTable;
use crate::server::settings::HookEntry;
use crate::server::settings::OptionScope;
use crate::server::settings::OptionTable;
use crate::server::settings::ReplaceMode;
use crate::session;
use crate::session::Session;
use crate::target;

verus! {

/// A command on the options or hooks of a session.
pub open spec fn on_session(
    command: command::CommandV,
    session: session::SessionV,
) -> command::CommandV {
    command.with_text("-t"@).with_text(
        target::id_text('$', session::session_number(session.info)),
    )
}

impl Session {
    /// The session's table of options and hooks.
    pub fn table(&self) -> (table: OptionTable)
        ensures
            table matches OptionTable::Session(id) && id@ == session::session_number(self@.info),
    {
        OptionTable::Session(*self.id())
    }

    /// The session's environment.
    fn own_environment(&self) -> (table: EnvironmentTable)
        ensures
            table matches EnvironmentTable::Session(id) && id@ == session::session_number(
                self@.info,
            ),
    {
        EnvironmentTable::Session(*self.id())
    }

    /// The command that shows one session option's exact stored value.
    pub fn get_option(&self, name: &str) -> (command: Command)
        ensures
            command@ == on_session(
                command::called("show-options"@).with_text("-v"@),
                self@,
            ).with_text(name@),
    {
        self.table().get_option(name)
    }

    /// The command that lists the options that are set for the session.
    pub fn option_names(&self) -> (command: Command)
        ensures
            command@ == on_session(command::called("show-options"@), self@),
    {
        self.table().option_names()
    }

    /// The command that sets one session option. The value is sensitive. What is known of
    /// the option says whether the session has it.
    ///
    /// # Errors
    ///
    /// [`Error::OptionScopeMismatch`] where tmux keeps it in another table.
    pub fn set_option(
        &self,
        name: &str,
        scopes: Option<&Vec<OptionScope>>,
        value: Vec<u8>,
    ) -> (command: Result<Command, Error>)
        ensures
            if settings::kept_elsewhere(OptionTable::GlobalSession, settings::scopes_view(scopes)) {
                command is Err && command->Err_0@ == (error::ErrorV::OptionScopeMismatch {
                    name: name@,
                })
            } else {
                command is Ok && command->Ok_0@ == on_session(command::called("set-option"@), self@).with_text(name@).with_secret(value@)
            },
    {
        let table = self.table();
        match table.require_scope(name, scopes) {
            Ok(()) => Ok(table.set_option(name, value, false)),
            Err(failure) => Err(failure),
        }
    }

    /// The command that extends one session option. The value is sensitive. What is known of
    /// the option says whether the session has it.
    ///
    /// # Errors
    ///
    /// [`Error::OptionScopeMismatch`] where tmux keeps it in another table.
    pub fn append_option(
        &self,
        name: &str,
        scopes: Option<&Vec<OptionScope>>,
        value: Vec<u8>,
    ) -> (command: Result<Command, Error>)
        ensures
            if settings::kept_elsewhere(OptionTable::GlobalSession, settings::scopes_view(scopes)) {
                command is Err && command->Err_0@ == (error::ErrorV::OptionScopeMismatch {
                    name: name@,
                })
            } else {
                command is Ok && command->Ok_0@ == on_session(command::called("set-option"@), self@).with_text("-a"@).with_text(name@).with_secret(value@)
            },
    {
        let table = self.table();
        match table.require_scope(name, scopes) {
            Ok(()) => Ok(table.set_option(name, value, true)),
            Err(failure) => Err(failure),
        }
    }

    /// The command that removes one session option. What is known of
    /// the option says whether the session has it.
    ///
    /// # Errors
    ///
    /// [`Error::OptionScopeMismatch`] where tmux keeps it in another table.
    pub fn unset_option(
        &self,
        name: &str,
        scopes: Option<&Vec<OptionScope>>,
    ) -> (command: Result<Command, Error>)
        ensures
            if settings::kept_elsewhere(OptionTable::GlobalSession, settings::scopes_view(scopes)) {
                command is Err && command->Err_0@ == (error::ErrorV::OptionScopeMismatch {
                    name: name@,
                })
            } else {
                command is Ok && command->Ok_0@ == on_session(command::called("set-option"@), self@).with_text("-u"@).with_text(name@)
            },
    {
        let table = self.table();
        match table.require_scope(name, scopes) {
            Ok(()) => Ok(table.unset_option(name)),
            Err(failure) => Err(failure),
        }
    }

    /// The command that sets one session hook. What is known of
    /// the option says whether the session has it.
    ///
    /// # Errors
    ///
    /// [`Error::OptionScopeMismatch`] where tmux keeps it in another table.
    pub fn write_hook(
        &self,
        name: &str,
        scopes: Option<&Vec<OptionScope>>,
        hook: Vec<u8>,
    ) -> (command: Result<Command, Error>)
        ensures
            if settings::kept_elsewhere(OptionTable::GlobalSession, settings::scopes_view(scopes)) {
                command is Err && command->Err_0@ == (error::ErrorV::OptionScopeMismatch {
                    name: name@,
                })
            } else {
                command is Ok && command->Ok_0@ == on_session(command::called("set-hook"@), self@).with_text(name@).with(hook@)
            },
    {
        let table = self.table();
        match table.require_scope(name, scopes) {
            Ok(()) => Ok(table.write_hook(name, hook)),
            Err(failure) => Err(failure),
        }
    }

    /// The command that removes one session hook. What is known of
    /// the option says whether the session has it.
    ///
    /// # Errors
    ///
    /// [`Error::OptionScopeMismatch`] where tmux keeps it in another table.
    pub fn unset_hook(
        &self,
        name: &str,
        scopes: Option<&Vec<OptionScope>>,
    ) -> (command: Result<Command, Error>)
        ensures
            if settings::kept_elsewhere(OptionTable::GlobalSession, settings::scopes_view(scopes)) {
                command is Err && command->Err_0@ == (error::ErrorV::OptionScopeMismatch {
                    name: name@,
                })
            } else {
                command is Ok && command->Ok_0@ == on_session(command::called("set-hook"@), self@).with_text("-u"@).with_text(name@)
            },
    {
        let table = self.table();
        match table.require_scope(name, scopes) {
            Ok(()) => Ok(table.unset_hook(name)),
            Err(failure) => Err(failure),
        }
    }

    /// The commands that write a whole session hook, to be sent as one
    /// invocation.
    pub fn write_hooks(&self, name: &str, hooks: &Vec<HookEntry>, replace: ReplaceMode) -> (chain:
        Vec<Command>)
        ensures
            exists|table: OptionTable|
                (table matches OptionTable::Session(id) && id@ == session::session_number(
                    self@.info,
                )) && settings::command_views(chain@) == #[trigger] settings::hook_written(
                    table,
                    name@,
                    settings::hook_views(hooks@),
                    replace,
                ),
    {
        let table = self.table();
        table.write_hooks(name, hooks, replace)
    }

    /// The command that sets a variable in the session's environment. The value
    /// is sensitive.
    pub fn set_environment(&self, name: &str, value: Vec<u8>) -> (command: Command)
        ensures
            command@ == on_session(command::called("set-environment"@), self@).with_text(
                name@,
            ).with_secret(value@),
    {
        self.own_environment().set_environment(name, value)
    }

    /// The command that shows a variable of the session's environment.
    pub fn environment(&self, name: &str) -> (command: Command)
        ensures
            command@ == on_session(command::called("show-environment"@), self@).with_text(name@),
    {
        self.own_environment().environment(name)
    }

    /// The command that lists the session's whole environment.
    pub fn environment_all(&self) -> (command: Command)
        ensures
            command@ == on_session(command::called("show-environment"@), self@),
    {
        self.own_environment().environment_all()
    }

    /// The command that hides a variable from processes the session starts.
    pub fn hide_environment(&self, name: &str) -> (command: Command)
        ensures
            command@ == on_session(command::called("set-environment"@), self@).with_text("-r"@).with_text(
                name@,
            ),
    {
        self.own_environment().hide_environment(name)
    }

    /// The command that removes a variable from the session's environment.
    pub fn unset_environment(&self, name: &str) -> (command: Command)
        ensures
            command@ == on_session(command::called("set-environment"@), self@).with_text("-u"@).with_text(
                name@,
            ),
    {
        self.own_environment().unset_environment(name)
    }
}

/// A command on a session names it behind `-t` at its end.
pub proof fn law_sessions_are_named_behind_a_flag(
    command: command::CommandV,
    session: session::SessionV,
)
    ensures
        ({
            let held = on_session(command, session).arguments;
            let count = command.arguments.len() as int;
            &&& on_session(command, session).name == command.name
            &&& held.len() == count + 2
            &&& held.take(count) == command.arguments
            &&& held[count].bytes == encode_utf8("-t"@)
            &&& held[count + 1].bytes == encode_utf8(
                target::id_text('$', session::session_number(session.info)),
            )
        }),
{
    let count = command.arguments.len() as int;
    assert(on_session(command, session).arguments.take(count) =~= command.arguments);
}

} // verus!
