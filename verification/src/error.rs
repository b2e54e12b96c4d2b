//! Why an operation on tmux fails.

use vstd::prelude::*;
use vstd::string::*;

use crate::command;
use crate::command::CommandResult;
use crate::formats::error as codec_error;
use crate::formats::error::FormatCodecError;
use crate::output;
use crate::output::read_lossy;
use crate::text::starts_with;
use crate::version::ReleaseVersion;
use crate::version::TmuxVersion;

verus! {

/// What is wrong with the configuration of a server.
#[derive(Clone, Copy, Debug, PartialEq, Eq, Structural)]
pub enum ServerConfigurationErrorKind {
    /// A socket was selected both by name and by path.
    ConflictingSocketSelectors,
    /// A socket name is empty or is no plain file name.
    InvalidSocketName,
    /// A path is empty.
    EmptyPath,
    /// A color mode is neither 88 nor 256.
    InvalidColors,
    /// A relative path cannot be resolved.
    WorkingDirectoryUnavailable,
    /// The directory of named sockets is not known.
    SocketRootUnavailable,
    /// The process does not run inside tmux.
    NotInsideTmux,
    /// The `TMUX` variable does not say what tmux says.
    MalformedTmuxVariable,
}

/// The kind of an object that is gone.
#[derive(Clone, Copy, Debug, PartialEq, Eq, Structural)]
pub enum ObjectKind {
    Session,
    Window,
    Pane,
    Client,
}

/// Which daemon answers at an endpoint.
#[derive(Clone, Copy, Debug, PartialEq, Eq, Structural)]
pub struct ServerGeneration {
    pub pid: u32,
    pub start_time: i64,
}

/// Why an operation on tmux fails.
#[allow(inconsistent_fields)]
pub enum Error {
    /// The configuration of a server is not usable.
    InvalidServerConfiguration(ServerConfigurationErrorKind),
    /// The running tmux is too old for a capability.
    UnsupportedCapability {
        capability: &'static str,
        needs: ReleaseVersion,
        found: TmuxVersion,
    },
    /// The running tmux gets a capability wrong.
    CapabilityDefective {
        capability: &'static str,
        found: TmuxVersion,
        broken_in: ReleaseVersion,
        fixed_in: ReleaseVersion,
    },
    /// No daemon answers at the endpoint.
    ServerGone { command: &'static str },
    /// tmux refused a command. What it said is withheld where the command
    /// carried something sensitive.
    CommandFailed { command: &'static str, exit_code: Option<i32>, stderr: Option<String> },
    /// An object belongs to another server.
    ServerMismatch { command: &'static str },
    /// Another daemon answers at the endpoint.
    ServerGenerationChanged { expected: ServerGeneration, found: ServerGeneration },
    /// A format expanded to something that cannot be read.
    UnreadableFormatValue { format: &'static str },
    /// An object does not exist any more.
    ObjectGone { kind: ObjectKind, id: String },
    /// A listing does not decode.
    DecodeListing { list_command: &'static str, detail: FormatCodecError },
    /// tmux keeps an option in another of its tables.
    OptionScopeMismatch { name: String },
    /// The operation took effect before it failed.
    AfterEffect { operation: &'static str, source: Box<Error> },
    /// A command reached its deadline.
    Timeout { command: &'static str },
    /// Too many commands are under way for another one.
    Overloaded { command: &'static str, in_flight: usize },
    /// The server takes no commands any more.
    ExecutorShutdown { command: &'static str },
}

/// Why an operation on tmux fails, in contracts.
#[allow(inconsistent_fields)]
#[verifier::ext_equal]
pub ghost enum ErrorV {
    InvalidServerConfiguration(ServerConfigurationErrorKind),
    UnsupportedCapability { capability: Seq<char>, needs: ReleaseVersion, found: TmuxVersion },
    CapabilityDefective {
        capability: Seq<char>,
        found: TmuxVersion,
        broken_in: ReleaseVersion,
        fixed_in: ReleaseVersion,
    },
    ServerGone { command: Seq<char> },
    CommandFailed { command: Seq<char>, exit_code: Option<i32>, stderr: Option<Seq<char>> },
    ServerMismatch { command: Seq<char> },
    ServerGenerationChanged { expected: ServerGeneration, found: ServerGeneration },
    UnreadableFormatValue { format: Seq<char> },
    ObjectGone { kind: ObjectKind, id: Seq<char> },
    DecodeListing { list_command: Seq<char>, detail: codec_error::ErrorV },
    OptionScopeMismatch { name: Seq<char> },
    AfterEffect { operation: Seq<char>, source: Box<ErrorV> },
    Timeout { command: Seq<char> },
    Overloaded { command: Seq<char>, in_flight: usize },
    ExecutorShutdown { command: Seq<char> },
}

/// What a caller can do about an error.
#[derive(Clone, Copy, Debug, PartialEq, Eq, Structural)]
pub enum ErrorKind {
    /// The caller asked for something that cannot be done.
    Invalid,
    /// tmux cannot do it.
    Unsupported,
    /// Nothing was done.
    Refused,
    /// Time ran out.
    Timeout,
    /// What was asked about does not exist.
    Gone,
    /// tmux answered with something unreadable.
    Decode,
    /// Something was done before the failure.
    PartialEffect,
}

/// What a caller can do about an error, in contracts.
pub open spec fn kind_of(error: ErrorV) -> ErrorKind {
    match error {
        ErrorV::InvalidServerConfiguration(_)
        | ErrorV::ServerMismatch { .. }
        | ErrorV::OptionScopeMismatch { .. } => ErrorKind::Invalid,
        ErrorV::UnsupportedCapability { .. }
        | ErrorV::CapabilityDefective { .. } => ErrorKind::Unsupported,
        ErrorV::CommandFailed { .. }
        | ErrorV::Overloaded { .. }
        | ErrorV::ExecutorShutdown { .. } => ErrorKind::Refused,
        ErrorV::Timeout { .. } => ErrorKind::Timeout,
        ErrorV::ServerGone { .. }
        | ErrorV::ObjectGone { .. }
        | ErrorV::ServerGenerationChanged { .. } => ErrorKind::Gone,
        ErrorV::UnreadableFormatValue { .. } | ErrorV::DecodeListing { .. } => ErrorKind::Decode,
        ErrorV::AfterEffect { .. } => ErrorKind::PartialEffect,
    }
}

/// Why an operation failed, if it did.
pub open spec fn failure<T>(result: Result<T, Error>) -> Option<ErrorV> {
    match result {
        Ok(_) => None,
        Err(error) => Some(error@),
    }
}

impl Error {
    /// The error in contracts.
    pub open spec fn view(&self) -> ErrorV
        decreases self,
    {
        match self {
            Error::InvalidServerConfiguration(kind) => ErrorV::InvalidServerConfiguration(*kind),
            Error::UnsupportedCapability { capability, needs, found } =>
            ErrorV::UnsupportedCapability { capability: capability@, needs: *needs, found: *found },
            Error::CapabilityDefective { capability, found, broken_in, fixed_in } =>
            ErrorV::CapabilityDefective {
                capability: capability@,
                found: *found,
                broken_in: *broken_in,
                fixed_in: *fixed_in,
            },
            Error::ServerGone { command } => ErrorV::ServerGone { command: command@ },
            Error::CommandFailed { command, exit_code, stderr } => ErrorV::CommandFailed {
                command: command@,
                exit_code: *exit_code,
                stderr: match stderr {
                    Some(text) => Some(text@),
                    None => None,
                },
            },
            Error::ServerMismatch { command } => ErrorV::ServerMismatch { command: command@ },
            Error::ServerGenerationChanged { expected, found } =>
            ErrorV::ServerGenerationChanged { expected: *expected, found: *found },
            Error::UnreadableFormatValue { format } => ErrorV::UnreadableFormatValue {
                format: format@,
            },
            Error::ObjectGone { kind, id } => ErrorV::ObjectGone { kind: *kind, id: id@ },
            Error::DecodeListing { list_command, detail } => ErrorV::DecodeListing {
                list_command: list_command@,
                detail: detail@,
            },
            Error::OptionScopeMismatch { name } => ErrorV::OptionScopeMismatch { name: name@ },
            Error::AfterEffect { operation, source } => ErrorV::AfterEffect {
                operation: operation@,
                source: Box::new(source.view()),
            },
            Error::Timeout { command } => ErrorV::Timeout { command: command@ },
            Error::Overloaded { command, in_flight } => ErrorV::Overloaded {
                command: command@,
                in_flight: *in_flight,
            },
            Error::ExecutorShutdown { command } => ErrorV::ExecutorShutdown { command: command@ },
        }
    }

    /// What a caller can do about the error.
    pub fn kind(&self) -> (kind: ErrorKind)
        ensures
            kind == kind_of(self@),
    {
        match self {
            Error::InvalidServerConfiguration(_)
            | Error::ServerMismatch { .. }
            | Error::OptionScopeMismatch { .. } => ErrorKind::Invalid,
            Error::UnsupportedCapability { .. }
            | Error::CapabilityDefective { .. } => ErrorKind::Unsupported,
            Error::CommandFailed { .. }
            | Error::Overloaded { .. }
            | Error::ExecutorShutdown { .. } => ErrorKind::Refused,
            Error::Timeout { .. } => ErrorKind::Timeout,
            Error::ServerGone { .. }
            | Error::ObjectGone { .. }
            | Error::ServerGenerationChanged { .. } => ErrorKind::Gone,
            Error::UnreadableFormatValue { .. } | Error::DecodeListing { .. } => ErrorKind::Decode,
            Error::AfterEffect { .. } => ErrorKind::PartialEffect,
        }
    }

    /// Report whether the same request may be taken later.
    ///
    /// Nothing was done, and what stood in the way goes away by itself.
    pub fn is_transient(&self) -> (transient: bool)
        ensures
            transient == (self@ is Overloaded),
    {
        matches!(self, Error::Overloaded { .. })
    }

    /// Mark an error as one that came after an operation took effect.
    pub fn after_effect(self, operation: &'static str) -> (marked: Error)
        ensures
            marked@ == (ErrorV::AfterEffect { operation: operation@, source: Box::new(self@) }),
    {
        Error::AfterEffect { operation, source: Box::new(self) }
    }

    /// Say why tmux refused a command, from what it said about it. What it
    /// said is withheld where the command carried something sensitive.
    pub fn refused(
        command: &'static str,
        exit_code: Option<i32>,
        said: String,
        sensitive: bool,
    ) -> (error: Error)
        ensures
            error@ == refused_as(command@, exit_code, said@, sensitive),
    {
        if starts_with(said.as_str(), "no server running on ") || starts_with(
            said.as_str(),
            "error connecting to ",
        ) {
            return Error::ServerGone { command };
        }
        let stderr = if sensitive {
            None
        } else {
            Some(said)
        };
        Error::CommandFailed { command, exit_code, stderr }
    }

    /// Say why tmux refused a command.
    pub fn from_refused_result(command: &'static str, result: &CommandResult) -> (error: Error)
        ensures
            error@ == refused(command@, result@),
    {
        let said = read_lossy(result.stderr());
        let sensitive = result.summary().sensitive_argument_count() > 0;
        Error::refused(command, result.exit_code(), said, sensitive)
    }

    /// Report a refused command in tmux's own words, whether or not a daemon
    /// answered.
    pub fn command_failed(command: &'static str, result: &CommandResult) -> (error: Error)
        ensures
            error@ == failed_as(command@, result@),
    {
        Error::CommandFailed {
            command,
            exit_code: result.exit_code(),
            stderr: Some(read_lossy(result.stderr())),
        }
    }
}

/// Whether tmux said that no daemon answers.
pub open spec fn nobody_answers(said: Seq<char>) -> bool {
    "no server running on "@.is_prefix_of(said) || "error connecting to "@.is_prefix_of(said)
}

/// Why tmux refused a command, from what it said about it. What it said is
/// withheld where the command carried something sensitive, because tmux may
/// have repeated it.
pub open spec fn refused_as(
    command: Seq<char>,
    exit_code: Option<i32>,
    said: Seq<char>,
    sensitive: bool,
) -> ErrorV {
    if nobody_answers(said) {
        ErrorV::ServerGone { command }
    } else {
        ErrorV::CommandFailed {
            command,
            exit_code,
            stderr: if sensitive {
                None
            } else {
                Some(said)
            },
        }
    }
}

/// Why tmux refused a command.
pub open spec fn refused(command: Seq<char>, result: command::ResultV) -> ErrorV {
    refused_as(
        command,
        result.exit_code,
        output::lossy_text(result.stderr),
        result.summary.sensitive_arguments > 0,
    )
}

/// Whether tmux accepted a command, and why not.
pub open spec fn refusal(command: Seq<char>, result: command::ResultV) -> Option<ErrorV> {
    if result.accepted() {
        None
    } else {
        Some(refused(command, result))
    }
}

/// Why tmux refused a command that carries nothing sensitive, in its own words
/// and whether or not a daemon answered.
pub open spec fn failed_as(command: Seq<char>, result: command::ResultV) -> ErrorV {
    ErrorV::CommandFailed {
        command,
        exit_code: result.exit_code,
        stderr: Some(output::lossy_text(result.stderr)),
    }
}

impl CommandResult {
    /// Require tmux to have accepted a command.
    ///
    /// # Errors
    ///
    /// Why tmux refused it.
    pub fn require(&self, command: &'static str) -> (result: Result<(), Error>)
        ensures
            failure(result) == refusal(command@, self@),
    {
        if self.success() {
            Ok(())
        } else {
            Err(Error::from_refused_result(command, self))
        }
    }
}

/// What an error says of a refused command does not depend on what tmux said,
/// where the command carried something sensitive and a daemon answered.
pub proof fn law_refusals_withhold_sensitive_output(
    command: Seq<char>,
    result: command::ResultV,
    stderr: Seq<u8>,
)
    requires
        result.summary.sensitive_arguments > 0,
        !nobody_answers(output::lossy_text(result.stderr)),
        !nobody_answers(output::lossy_text(stderr)),
    ensures
        refused(command, result) == refused(command, command::ResultV { stderr, ..result }),
{
}

/// A refusal is the absence of a daemon exactly where what tmux said starts
/// with one of its two ways to say so. Otherwise it is a failure of the
/// command, with what tmux said unless the command carried something sensitive.
pub proof fn law_refusals_say_what_tmux_said(
    command: Seq<char>,
    result: command::ResultV,
    rest: Seq<char>,
)
    ensures
        refusal(command, result) is None <==> result.accepted(),
        !result.accepted() ==> refusal(command, result) == Some(refused(command, result)),
        ({
            let said = output::lossy_text(result.stderr);
            let gone = "no server running on "@;
            let unreachable = "error connecting to "@;
            let absent = (said.len() >= gone.len() && said.take(gone.len() as int) == gone) || (
            said.len() >= unreachable.len() && said.take(unreachable.len() as int) == unreachable);
            &&& absent ==> refused(command, result) == (ErrorV::ServerGone { command })
            &&& !absent && result.summary.sensitive_arguments == 0 ==> refused(command, result) == (
            ErrorV::CommandFailed {
                command,
                exit_code: result.exit_code,
                stderr: Some(said),
            })
            &&& !absent && result.summary.sensitive_arguments > 0 ==> refused(command, result) == (
            ErrorV::CommandFailed { command, exit_code: result.exit_code, stderr: None })
            &&& failed_as(command, result) == (ErrorV::CommandFailed {
                command,
                exit_code: result.exit_code,
                stderr: Some(said),
            })
        }),
        nobody_answers("no server running on "@ + rest),
        nobody_answers("error connecting to "@ + rest),
{
    let said = output::lossy_text(result.stderr);
    let gone = "no server running on "@;
    let unreachable = "error connecting to "@;
    if said.len() >= gone.len() {
        assert(said.take(gone.len() as int) =~= said.subrange(0, gone.len() as int));
    }
    if said.len() >= unreachable.len() {
        assert(said.take(unreachable.len() as int) =~= said.subrange(0, unreachable.len() as int));
    }
    assert((gone + rest).subrange(0, gone.len() as int) =~= gone);
    assert((unreachable + rest).subrange(0, unreachable.len() as int) =~= unreachable);
}

/// What a caller can do about an error follows from what failed.
pub proof fn law_kinds_of_errors(error: ErrorV)
    ensures
        kind_of(error) is Invalid <==> error is InvalidServerConfiguration || error
            is ServerMismatch || error is OptionScopeMismatch,
        kind_of(error) is Unsupported <==> error is UnsupportedCapability || error
            is CapabilityDefective,
        kind_of(error) is Refused <==> error is CommandFailed || error is Overloaded || error
            is ExecutorShutdown,
        kind_of(error) is Timeout <==> error is Timeout,
        kind_of(error) is Gone <==> error is ServerGone || error is ObjectGone || error
            is ServerGenerationChanged,
        kind_of(error) is Decode <==> error is UnreadableFormatValue || error is DecodeListing,
        kind_of(error) is PartialEffect <==> error is AfterEffect,
{
}

} // verus!
