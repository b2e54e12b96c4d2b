//! Paste buffers, formats, and shell commands that tmux runs.

use vstd::prelude::*;
use vstd::string::*;

use crate::command;
use crate::command::Command;
use crate::command::CommandResult;
use crate::error;
use crate::error::Error;
use crate::output;
use crate::output::lines;
use crate::output::read_framed;
use crate::output::read_lossy;
use crate::output::read_shell_lines;
use crate::output::to_strings;
use crate::pane;
use crate::pane::Pane;
use crate::server::lifecycle;
use crate::server::lifecycle::behind;
use crate::server::Server;
use crate::target;
use crate::target::ServerIdentity;
use crate::text;
use crate::text::copy_bytes;
use crate::text::TmuxText;
use crate::version::TmuxVersion;

verus! {

/// The lines of a listing.
pub fn parse_lines(listing: &str) -> (names: Vec<String>)
    ensures
        output::string_views(names@) == output::lines_of(listing@),
{
    to_strings(&lines(listing))
}

impl Server {
    /// Require an object to live on the server.
    ///
    /// # Errors
    ///
    /// [`Error::ServerMismatch`] for an object of another server.
    pub fn require_same_server(&self, identity: &ServerIdentity, command: &'static str) -> (result:
        Result<(), Error>)
        ensures
            error::failure(result) == if identity@ == self@.socket_path {
                None
            } else {
                Some(error::ErrorV::ServerMismatch { command: command@ })
            },
    {
        if *identity == *self.identity() {
            Ok(())
        } else {
            Err(Error::ServerMismatch { command })
        }
    }

    /// The command that stores data in a paste buffer. Without a name, tmux
    /// chooses one. The data is sensitive.
    pub fn set_buffer(&self, name: Option<&str>, data: Vec<u8>) -> (command: Command)
        ensures
            command@ == (match name {
                Some(name) => command::called("set-buffer"@).with_text("-b"@).with_text(name@),
                None => command::called("set-buffer"@),
            }).with_secret(data@),
    {
        let mut command = Command::new("set-buffer");
        if let Some(name) = name {
            command = command.text("-b").text(name);
        }
        command.sensitive_arg(data)
    }

    /// The command that shows a paste buffer.
    pub fn buffer(&self, name: &str) -> (command: Command)
        ensures
            command@ == command::called("show-buffer"@).with_text("-b"@).with_text(name@),
    {
        Command::new("show-buffer").text("-b").text(name)
    }

    /// Read a paste buffer's exact bytes. tmux refuses a name it does not
    /// have, which is absence rather than failure.
    ///
    /// # Errors
    ///
    /// [`Error::ServerGone`] where no daemon answers.
    pub fn read_buffer(result: &CommandResult) -> (data: Result<Option<Vec<u8>>, Error>)
        ensures
            match error::refusal("show-buffer"@, result@) {
                None => data matches Ok(Some(bytes)) && bytes@ == result@.stdout,
                Some(failure) => if failure is ServerGone {
                    data is Err && data->Err_0@ == failure
                } else {
                    data == Ok::<Option<Vec<u8>>, Error>(None)
                },
            },
    {
        if result.success() {
            return Ok(Some(copy_bytes(result.stdout())));
        }
        let failure = Error::from_refused_result("show-buffer", result);
        match failure {
            Error::ServerGone { .. } => Err(failure),
            _ => Ok(None),
        }
    }

    /// The command that lists the names of paste buffers.
    pub fn buffer_names(&self) -> (command: Command)
        ensures
            command@ == command::called("list-buffers"@).with_text("-F"@).with_text(
                "#{buffer_name}"@,
            ),
    {
        Command::new("list-buffers").text("-F").text("#{buffer_name}")
    }

    /// Read the names of paste buffers, one from each line.
    ///
    /// # Errors
    ///
    /// [`Error::CommandFailed`] where tmux refused the listing.
    pub fn read_buffer_names(result: &CommandResult) -> (names: Result<Vec<String>, Error>)
        ensures
            if result@.accepted() {
                names is Ok && output::string_views(names->Ok_0@) == output::lines_of(
                    output::lossy_text(result@.stdout),
                )
            } else {
                names is Err && names->Err_0@ == error::failed_as("list-buffers"@, result@)
            },
    {
        if !result.success() {
            return Err(Error::command_failed("list-buffers", result));
        }
        Ok(parse_lines(read_lossy(result.stdout()).as_str()))
    }

    /// The command that deletes one paste buffer.
    pub fn delete_buffer(&self, name: &str) -> (command: Command)
        ensures
            command@ == command::called("delete-buffer"@).with_text("-b"@).with_text(name@),
    {
        Command::new("delete-buffer").text("-b").text(name)
    }

    /// The command that expands a format, on a pane if there is one.
    ///
    /// # Errors
    ///
    /// [`Error::ServerMismatch`] for a pane of another server.
    pub fn format(&self, pane: Option<&Pane>, format: &str) -> (command: Result<Command, Error>)
        ensures
            match pane {
                None => command is Ok && command->Ok_0@ == command::called(
                    "display-message"@,
                ).with_text("-p"@).with_text(format@),
                Some(pane) => if pane@.link_identity.server == self@.socket_path {
                    command is Ok && command->Ok_0@ == command::called(
                        "display-message"@,
                    ).with_text("-p"@).with_text("-t"@).with_text(
                        target::id_text('%', pane::pane_number(pane@)),
                    ).with_text(format@)
                } else {
                    error::failure(command) == Some(
                        error::ErrorV::ServerMismatch { command: "display-message"@ },
                    )
                },
            },
    {
        let mut command = Command::new("display-message").text("-p");
        if let Some(pane) = pane {
            if let Err(failure) = self.require_same_server(
                pane.server_identity(),
                "display-message",
            ) {
                return Err(failure);
            }
            command = command.text("-t").text(pane.id().text().as_str());
        }
        Ok(command.text(format))
    }

    /// Read what a format expands to. The line feed that tmux ends its output
    /// with is framing rather than part of the expansion.
    ///
    /// # Errors
    ///
    /// Why tmux refused the format.
    pub fn read_format(result: &CommandResult) -> (value: Result<TmuxText, Error>)
        ensures
            match error::refusal("display-message"@, result@) {
                Some(failure) => value is Err && value->Err_0@ == failure,
                None => value is Ok && value->Ok_0@ == output::unframed(result@.stdout),
            },
    {
        if let Err(failure) = result.require("display-message") {
            return Err(failure);
        }
        Ok(read_framed(result.stdout()))
    }

    /// The command that loads a tmux configuration file.
    pub fn source_file(&self, path: Vec<u8>) -> (command: Command)
        ensures
            command@ == command::called("source-file"@).with(path@),
    {
        Command::new("source-file").arg(path)
    }

    /// The command that runs a shell command and prints what it printed. The
    /// shell command is sensitive.
    ///
    /// # Errors
    ///
    /// The reason of [`Server::require_shell_output`].
    pub fn run_shell(&self, found: &TmuxVersion, command: Vec<u8>) -> (run: Result<Command, Error>)
        ensures
            lifecycle::gated(
                run,
                lifecycle::without_shell_output(*found),
                command::called("run-shell"@).with_secret(command@),
            ),
    {
        behind(
            Server::require_shell_output(found),
            Command::new("run-shell").sensitive_arg(command),
        )
    }

    /// Read the lines that a shell command printed.
    ///
    /// # Errors
    ///
    /// Why tmux refused the command, without what it said.
    pub fn read_shell(result: &CommandResult) -> (lines: Result<Vec<TmuxText>, Error>)
        ensures
            match error::refusal("run-shell"@, result@) {
                Some(failure) => lines is Err && lines->Err_0@ == failure,
                None => lines is Ok && output::text_views(lines->Ok_0@) == output::shell_lines(
                    result@.stdout,
                ),
            },
    {
        if let Err(failure) = result.require("run-shell") {
            return Err(failure);
        }
        Ok(read_shell_lines(result.stdout()))
    }

    /// The command that runs a shell command in the background. The shell
    /// command is sensitive.
    pub fn spawn_shell(&self, command: Vec<u8>) -> (run: Command)
        ensures
            run@ == command::called("run-shell"@).with_text("-b"@).with_secret(command@),
    {
        Command::new("run-shell").text("-b").sensitive_arg(command)
    }
}

} // verus!
