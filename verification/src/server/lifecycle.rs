//! Whether a server answers, which one answers, what it can do, and the
//! sessions it is asked to create.

use vstd::prelude::*;
use vstd::string::*;
use vstd::utf8::*;

use crate::command;
use crate::command::Command;
use crate::command::CommandResult;
use crate::decimal;
use crate::decimal::format_unsigned;
use crate::error;
use crate::error::Error;
use crate::error::ServerGeneration;
use crate::output;
use crate::output::parse_i64;
use crate::output::parse_u32;
use crate::output::read_lossy;
use crate::output::words;
use crate::server::Server;
use crate::text;
use crate::text::render_bool;
use crate::text::render_open_struct;
use crate::version::ReleaseSuffix;
use crate::version::ReleaseVersion;
use crate::version::TmuxVersion;

verus! {

/// Whether a version is too old for a capability. A development build carries
/// no numbered release, so it is taken at its word.
pub open spec fn too_old(found: TmuxVersion, needs: ReleaseVersion) -> bool {
    match found.proven() {
        Some(release) => release.before(needs),
        None => false,
    }
}

/// Whether a version is inside a range that gets a capability wrong.
pub open spec fn defective(
    found: TmuxVersion,
    broken_in: ReleaseVersion,
    fixed_in: ReleaseVersion,
) -> bool {
    match found.proven() {
        Some(release) => !release.before(broken_in) && release.before(fixed_in),
        None => false,
    }
}

/// The first release that the library supports, 3.2a.
pub open spec fn supported_since() -> ReleaseVersion {
    ReleaseVersion { major: 3, minor: 2, suffix: ReleaseSuffix::Letter(97) }
}

/// A final release.
pub open spec fn final_release(major: u32, minor: u32) -> ReleaseVersion {
    ReleaseVersion { major, minor, suffix: ReleaseSuffix::Final }
}

/// A final release.
fn release(major: u32, minor: u32) -> (release: ReleaseVersion)
    ensures
        release == final_release(major, minor),
{
    ReleaseVersion::new(major, minor, ReleaseSuffix::Final)
}

/// Why a version does not offer the server access list, if it does not.
pub open spec fn without_access_list(found: TmuxVersion) -> Option<error::ErrorV> {
    if too_old(found, final_release(3, 3)) {
        Some(
            error::ErrorV::UnsupportedCapability {
                capability: "the server access list"@,
                needs: final_release(3, 3),
                found,
            },
        )
    } else {
        None
    }
}

/// Why a version does not offer the histories of prompts, if it does not.
pub open spec fn without_prompt_history(found: TmuxVersion) -> Option<error::ErrorV> {
    if too_old(found, final_release(3, 3)) {
        Some(
            error::ErrorV::UnsupportedCapability {
                capability: "prompt history"@,
                needs: final_release(3, 3),
                found,
            },
        )
    } else {
        None
    }
}

/// Why a version does not offer key bindings as fields, if it does not.
pub open spec fn without_typed_key_bindings(found: TmuxVersion) -> Option<error::ErrorV> {
    if too_old(found, final_release(3, 7)) {
        Some(
            error::ErrorV::UnsupportedCapability {
                capability: "list-keys formats"@,
                needs: final_release(3, 7),
                found,
            },
        )
    } else {
        None
    }
}

/// Why a version loses the output of shell commands, if it does.
pub open spec fn without_shell_output(found: TmuxVersion) -> Option<error::ErrorV> {
    if defective(found, final_release(3, 3), final_release(3, 5)) {
        Some(
            error::ErrorV::CapabilityDefective {
                capability: "run-shell output"@,
                found,
                broken_in: final_release(3, 3),
                fixed_in: final_release(3, 5),
            },
        )
    } else {
        None
    }
}

/// Whether a command is given exactly where nothing stands in its way.
pub open spec fn gated(
    given: Result<Command, Error>,
    refusal: Option<error::ErrorV>,
    command: command::CommandV,
) -> bool {
    match refusal {
        Some(failure) => given is Err && given->Err_0@ == failure,
        None => given is Ok && given->Ok_0@ == command,
    }
}

/// Give a command where its gate is open.
pub(crate) fn behind(gate: Result<(), Error>, command: Command) -> (given: Result<Command, Error>)
    ensures
        gated(given, error::failure(gate), command@),
{
    match gate {
        Ok(()) => Ok(command),
        Err(failure) => Err(failure),
    }
}

impl Server {
    /// Refuse a capability the running tmux is too old for.
    ///
    /// Checked rather than left to tmux, which usually accepts an unknown flag
    /// and ignores it.
    ///
    /// # Errors
    ///
    /// [`Error::UnsupportedCapability`] for a release before the one that is
    /// needed.
    pub fn require(capability: &'static str, needs: ReleaseVersion, found: &TmuxVersion) -> (result:
        Result<(), Error>)
        ensures
            error::failure(result) == if too_old(*found, needs) {
                Some(
                    error::ErrorV::UnsupportedCapability {
                        capability: capability@,
                        needs,
                        found: *found,
                    },
                )
            } else {
                None
            },
    {
        let too_old = match found.release() {
            Some(release) => release.is_before(needs),
            None => false,
        };
        if too_old {
            Err(Error::UnsupportedCapability { capability, needs, found: *found })
        } else {
            Ok(())
        }
    }

    /// Refuse a tmux before the first release that the library supports.
    ///
    /// # Errors
    ///
    /// [`Error::UnsupportedCapability`] for a release before 3.2a.
    pub fn require_supported(found: &TmuxVersion) -> (result: Result<(), Error>)
        ensures
            error::failure(result) == if too_old(*found, supported_since()) {
                Some(
                    error::ErrorV::UnsupportedCapability {
                        capability: "tmux"@,
                        needs: supported_since(),
                        found: *found,
                    },
                )
            } else {
                None
            },
    {
        Server::require("tmux", ReleaseVersion::new(3, 2, ReleaseSuffix::Letter(97)), found)
    }

    /// Settle an operation on a session that was created for it and killed
    /// behind it. Where the session could not be killed, its creation had taken
    /// effect, and what the operation came to is discarded.
    ///
    /// # Errors
    ///
    /// [`Error::AfterEffect`] where the session could not be killed.
    pub fn settle_session<T, E>(outcome: Result<T, E>, cleanup: Result<(), Error>) -> (settled:
        Result<Result<T, E>, Error>)
        ensures
            match cleanup {
                Ok(()) => settled == Ok::<Result<T, E>, Error>(outcome),
                Err(failure) => settled is Err && settled->Err_0@ == (error::ErrorV::AfterEffect {
                    operation: "with-session"@,
                    source: Box::new(failure@),
                }),
            },
    {
        match cleanup {
            Ok(()) => Ok(outcome),
            Err(failure) => Err(
                Error::AfterEffect { operation: "with-session", source: Box::new(failure) },
            ),
        }
    }

    /// Refuse when the running release is inside a range that gets a
    /// capability wrong. A floor would refuse the older releases that work.
    ///
    /// # Errors
    ///
    /// [`Error::CapabilityDefective`] for a release from the first broken one
    /// up to the one that fixes it.
    pub fn refuse_if_defective(
        capability: &'static str,
        broken_in: ReleaseVersion,
        fixed_in: ReleaseVersion,
        found: &TmuxVersion,
    ) -> (result: Result<(), Error>)
        ensures
            error::failure(result) == if defective(*found, broken_in, fixed_in) {
                Some(
                    error::ErrorV::CapabilityDefective {
                        capability: capability@,
                        found: *found,
                        broken_in,
                        fixed_in,
                    },
                )
            } else {
                None
            },
    {
        let defective = match found.release() {
            Some(release) => !release.is_before(broken_in) && release.is_before(fixed_in),
            None => false,
        };
        if defective {
            Err(Error::CapabilityDefective { capability, found: *found, broken_in, fixed_in })
        } else {
            Ok(())
        }
    }

    /// Require the server access list.
    ///
    /// # Errors
    ///
    /// [`Error::UnsupportedCapability`] below tmux 3.3.
    pub fn require_access_list(found: &TmuxVersion) -> (result: Result<(), Error>)
        ensures
            error::failure(result) == without_access_list(*found),
    {
        Server::require("the server access list", release(3, 3), found)
    }

    /// Require the histories of prompts.
    ///
    /// # Errors
    ///
    /// [`Error::UnsupportedCapability`] below tmux 3.3.
    pub fn require_prompt_history(found: &TmuxVersion) -> (result: Result<(), Error>)
        ensures
            error::failure(result) == without_prompt_history(*found),
    {
        Server::require("prompt history", release(3, 3), found)
    }

    /// Require key bindings as fields.
    ///
    /// # Errors
    ///
    /// [`Error::UnsupportedCapability`] below tmux 3.7.
    pub fn require_typed_key_bindings(found: &TmuxVersion) -> (result: Result<(), Error>)
        ensures
            error::failure(result) == without_typed_key_bindings(*found),
    {
        Server::require("list-keys formats", release(3, 7), found)
    }

    /// Require the output of shell commands.
    ///
    /// Releases 3.3, 3.3a and 3.4 send it into a pane instead, and report
    /// success, so the command appears to have printed nothing.
    ///
    /// # Errors
    ///
    /// [`Error::CapabilityDefective`] from tmux 3.3 up to 3.5.
    pub fn require_shell_output(found: &TmuxVersion) -> (result: Result<(), Error>)
        ensures
            error::failure(result) == without_shell_output(*found),
    {
        Server::refuse_if_defective("run-shell output", release(3, 3), release(3, 5), found)
    }

    /// The command that stops the daemon.
    pub fn kill(&self) -> (command: Command)
        ensures
            command@ == command::called("kill-server"@),
    {
        Command::new("kill-server")
    }

    /// Judge an attempt to stop the daemon. tmux refuses when no daemon was
    /// running, which is the state that was asked for.
    ///
    /// # Errors
    ///
    /// [`Error::CommandFailed`] where tmux refused to stop a daemon that still
    /// answers.
    pub fn judge_kill(result: &CommandResult, alive: bool) -> (outcome: Result<(), Error>)
        ensures
            error::failure(outcome) == if alive && !result@.accepted() {
                Some(error::failed_as("kill-server"@, result@))
            } else {
                None
            },
    {
        if result.success() || !alive {
            Ok(())
        } else {
            Err(Error::command_failed("kill-server", result))
        }
    }

    /// The command that asks whether a daemon answers.
    pub fn check_alive(&self) -> (command: Command)
        ensures
            command@ == command::called("list-sessions"@),
    {
        Command::new("list-sessions")
    }

    /// Judge whether a daemon answered.
    ///
    /// # Errors
    ///
    /// [`Error::ServerGone`] when no daemon answered, or why tmux refused.
    pub fn judge_alive(result: &CommandResult) -> (outcome: Result<(), Error>)
        ensures
            error::failure(outcome) == error::refusal("list-sessions"@, result@),
    {
        result.require("list-sessions")
    }

    /// Report whether a daemon answered. Every failure is a no.
    pub fn is_alive(outcome: &Result<(), Error>) -> (alive: bool)
        ensures
            alive == (outcome is Ok),
    {
        match outcome {
            Ok(_) => true,
            Err(_) => false,
        }
    }

    /// The command that starts a daemon without creating a session.
    pub fn start(&self) -> (command: Command)
        ensures
            command@ == command::called("start-server"@),
    {
        Command::new("start-server")
    }

    /// The command that locks every client on the server.
    pub fn lock_all(&self) -> (command: Command)
        ensures
            command@ == command::called("lock-server"@),
    {
        Command::new("lock-server")
    }

    /// The command that asks which daemon answers. The start time is what
    /// defeats the reuse of a process identity.
    pub fn generation(&self) -> (command: Command)
        ensures
            command@ == command::called("display-message"@).with_text("-p"@).with_text(
                "#{pid} #{start_time}"@,
            ),
    {
        Command::new("display-message").text("-p").text("#{pid} #{start_time}")
    }

    /// Read which daemon answered.
    ///
    /// # Errors
    ///
    /// Why tmux refused, or [`Error::UnreadableFormatValue`] for something that
    /// is not a process identity and a start time.
    pub fn read_generation(result: &CommandResult) -> (generation: Result<ServerGeneration, Error>)
        ensures
            match error::refusal("display-message"@, result@) {
                Some(failure) => generation is Err && generation->Err_0@ == failure,
                None => generation_result(generation) == generation_of(
                    output::lossy_text(output::unframed(result@.stdout)),
                ),
            },
    {
        let value = match Server::read_format(result) {
            Ok(value) => value,
            Err(failure) => return Err(failure),
        };
        parse_generation(read_lossy(value.as_bytes()).as_str())
    }

    /// Fail unless the daemon answering is still the one that was captured.
    ///
    /// # Errors
    ///
    /// [`Error::ServerGenerationChanged`] when a different daemon answers.
    pub fn require_generation(expected: ServerGeneration, found: ServerGeneration) -> (result:
        Result<(), Error>)
        ensures
            error::failure(result) == if found == expected {
                None
            } else {
                Some(error::ErrorV::ServerGenerationChanged { expected, found })
            },
    {
        if found == expected {
            Ok(())
        } else {
            Err(Error::ServerGenerationChanged { expected, found })
        }
    }
}

/// Which daemon a text names, or that it names none: a process identity and a
/// start time, parted by white space.
pub open spec fn generation_of(text: Seq<char>) -> Result<ServerGeneration, error::ErrorV> {
    let words = output::words_of(text);
    let unreadable = error::ErrorV::UnreadableFormatValue { format: "#{pid} #{start_time}"@ };
    if words.len() < 2 {
        Err(unreadable)
    } else {
        match (
            output::unsigned_denoted(encode_utf8(words[0])),
            output::integer_denoted(encode_utf8(words[1])),
        ) {
            (Some(pid), Some(start_time)) => if pid <= u32::MAX && i64::MIN <= start_time
                <= i64::MAX {
                Ok(ServerGeneration { pid: pid as u32, start_time: start_time as i64 })
            } else {
                Err(unreadable)
            },
            _ => Err(unreadable),
        }
    }
}

/// The outcome of reading which daemon answered, in contracts.
pub open spec fn generation_result(generation: Result<ServerGeneration, Error>) -> Result<
    ServerGeneration,
    error::ErrorV,
> {
    match generation {
        Ok(generation) => Ok(generation),
        Err(failure) => Err(failure@),
    }
}

/// Read which daemon a text names.
///
/// # Errors
///
/// [`Error::UnreadableFormatValue`] for something that is not a process
/// identity and a start time.
pub fn parse_generation(text: &str) -> (generation: Result<ServerGeneration, Error>)
    ensures
        generation_result(generation) == generation_of(text@),
{
    let words = words(text);
    let ghost views = text::slices(words@);
    if words.len() < 2 {
        return Err(Error::UnreadableFormatValue { format: "#{pid} #{start_time}" });
    }
    assert(views[0] == words@[0]@);
    assert(views[1] == words@[1]@);
    match (parse_u32(words[0].as_bytes()), parse_i64(words[1].as_bytes())) {
        (Some(pid), Some(start_time)) => Ok(ServerGeneration { pid, start_time }),
        _ => Err(Error::UnreadableFormatValue { format: "#{pid} #{start_time}" }),
    }
}

/// Options for creating a session.
pub struct NewSessionOptions {
    name: Vec<u8>,
    start_directory: Option<Vec<u8>>,
    window_name: Option<Vec<u8>>,
    command: Option<Vec<u8>>,
    width: Option<u32>,
    height: Option<u32>,
}

/// Options for creating a session, in contracts.
#[verifier::ext_equal]
pub ghost struct SessionOptionsV {
    pub name: Seq<u8>,
    pub start_directory: Option<Seq<u8>>,
    pub window_name: Option<Seq<u8>>,
    pub command: Option<Seq<u8>>,
    pub width: Option<u32>,
    pub height: Option<u32>,
}

/// A command with a flag and its value, if there is one.
pub open spec fn with_flag(
    command: command::CommandV,
    flag: Seq<char>,
    value: Option<Seq<u8>>,
) -> command::CommandV {
    match value {
        Some(value) => command.with_text(flag).with(value),
        None => command,
    }
}

/// The command that creates a detached session. The flags stand in front of
/// the shell command, because tmux stops reading flags at the first
/// positional.
pub open spec fn creation(options: SessionOptionsV, format: Seq<char>) -> command::CommandV {
    let start = command::called("new-session"@).with_text("-d"@).with_text("-P"@).with_text(
        "-F"@,
    ).with_text(format).with_text("-s"@).with(options.name);
    let placed = with_flag(start, "-c"@, options.start_directory);
    let named = with_flag(placed, "-n"@, options.window_name);
    let sized = match (options.width, options.height) {
        (Some(width), Some(height)) => named.with_text("-x"@).with_text(
            decimal::decimal(width as nat),
        ).with_text("-y"@).with_text(decimal::decimal(height as nat)),
        _ => named,
    };
    match options.command {
        Some(command) => sized.with_secret(command),
        None => sized,
    }
}

/// The rendering of a number that may be absent.
pub open spec fn maybe_number(number: Option<u32>) -> Seq<char> {
    match number {
        Some(number) => "Some("@ + decimal::decimal(number as nat) + ")"@,
        None => "None"@,
    }
}

/// Render a number that may be absent.
pub(crate) fn render_maybe(number: Option<u32>) -> (rendering: String)
    ensures
        rendering@ == maybe_number(number),
{
    match number {
        Some(number) => {
            let mut rendering = "Some(".to_owned();
            rendering.append(format_unsigned(number as u128).as_str());
            rendering.append(")");
            rendering
        },
        None => "None".to_owned(),
    }
}

impl NewSessionOptions {
    /// The options in contracts.
    pub closed spec fn view(&self) -> SessionOptionsV {
        SessionOptionsV {
            name: self.name@,
            start_directory: crate::server::maybe_bytes(self.start_directory),
            window_name: crate::server::maybe_bytes(self.window_name),
            command: crate::server::maybe_bytes(self.command),
            width: self.width,
            height: self.height,
        }
    }

    /// Describe a session with the given name.
    pub fn new(name: Vec<u8>) -> (options: NewSessionOptions)
        ensures
            options@ == (SessionOptionsV {
                name: name@,
                start_directory: None,
                window_name: None,
                command: None,
                width: None,
                height: None,
            }),
    {
        NewSessionOptions {
            name,
            start_directory: None,
            window_name: None,
            command: None,
            width: None,
            height: None,
        }
    }

    /// Set the working directory for the session's first window.
    pub fn start_directory(self, directory: Vec<u8>) -> (options: NewSessionOptions)
        ensures
            options@ == (SessionOptionsV { start_directory: Some(directory@), ..self@ }),
    {
        let mut options = self;
        options.start_directory = Some(directory);
        options
    }

    /// Name the session's first window.
    pub fn window_name(self, name: Vec<u8>) -> (options: NewSessionOptions)
        ensures
            options@ == (SessionOptionsV { window_name: Some(name@), ..self@ }),
    {
        let mut options = self;
        options.window_name = Some(name);
        options
    }

    /// Run a command instead of the default shell.
    pub fn command(self, command: Vec<u8>) -> (options: NewSessionOptions)
        ensures
            options@ == (SessionOptionsV { command: Some(command@), ..self@ }),
    {
        let mut options = self;
        options.command = Some(command);
        options
    }

    /// Set the initial size, which a detached session would otherwise default.
    pub fn size(self, width: u32, height: u32) -> (options: NewSessionOptions)
        ensures
            options@ == (SessionOptionsV { width: Some(width), height: Some(height), ..self@ }),
    {
        let mut options = self;
        options.width = Some(width);
        options.height = Some(height);
        options
    }

    /// Lower these options into a detached `new-session` command. It is always
    /// detached: attaching would take over the calling terminal.
    pub fn into_command(self, print_format: &str) -> (command: Command)
        ensures
            command@ == creation(self@, print_format@),
            command@.arguments[3].bytes == encode_utf8(print_format@),
            command@.arguments[5].bytes == self@.name,
            self@.start_directory matches Some(path) ==> command@.arguments[6].bytes == encode_utf8(
                "-c"@,
            ) && command@.arguments[7].bytes == path,
            self@.command matches Some(shell) ==> command@.arguments.last() == (
            command::ArgumentV { bytes: shell, sensitive: true }),
    {
        proof {
            law_session_options_reach_the_command(self@, print_format@);
        }
        let mut command = Command::new("new-session").text("-d").text("-P").text("-F").text(
            print_format,
        ).text("-s").arg(self.name);
        if let Some(directory) = self.start_directory {
            command = command.text("-c").arg(directory);
        }
        if let Some(name) = self.window_name {
            command = command.text("-n").arg(name);
        }
        if let (Some(width), Some(height)) = (self.width, self.height) {
            command = command.text("-x").text(format_unsigned(width as u128).as_str()).text(
                "-y",
            ).text(format_unsigned(height as u128).as_str());
        }
        match self.command {
            Some(shell_command) => command.sensitive_arg(shell_command),
            None => command,
        }
    }

    /// A rendering that shows neither a path, a name nor a command.
    pub fn debug_text(&self) -> (rendering: String)
        ensures
            rendering@ == options_rendering(self@),
    {
        let mut members: Vec<(&'static str, String)> = Vec::new();
        members.push(("has_start_directory", render_bool(self.start_directory.is_some())));
        members.push(("has_window_name", render_bool(self.window_name.is_some())));
        members.push(("has_command", render_bool(self.command.is_some())));
        members.push(("width", render_maybe(self.width)));
        members.push(("height", render_maybe(self.height)));
        let ghost options = self@;
        assert(text::member_views(members@) =~= seq![
            ("has_start_directory"@, text::bool_text(options.start_directory is Some)),
            ("has_window_name"@, text::bool_text(options.window_name is Some)),
            ("has_command"@, text::bool_text(options.command is Some)),
            ("width"@, maybe_number(options.width)),
            ("height"@, maybe_number(options.height)),
        ]);
        render_open_struct("NewSessionOptions", &members)
    }
}

/// The rendering of options.
pub open spec fn options_rendering(options: SessionOptionsV) -> Seq<char> {
    text::open_rendering(
        "NewSessionOptions"@,
        seq![
            ("has_start_directory"@, text::bool_text(options.start_directory is Some)),
            ("has_window_name"@, text::bool_text(options.window_name is Some)),
            ("has_command"@, text::bool_text(options.command is Some)),
            ("width"@, maybe_number(options.width)),
            ("height"@, maybe_number(options.height)),
        ],
    )
}

/// A session is created detached, under its name, and its shell command is
/// the only argument that is kept out of diagnostics.
pub proof fn law_sessions_are_created_detached(options: SessionOptionsV, format: Seq<char>)
    ensures
        creation(options, format).name == "new-session"@,
        creation(options, format).arguments[0] == (command::ArgumentV {
            bytes: encode_utf8("-d"@),
            sensitive: false,
        }),
        command::secrets(creation(options, format).arguments) == if options.command is Some {
            1nat
        } else {
            0
        },
{
    let plain = SessionOptionsV { command: None, ..options };
    lemma_no_secrets(plain, format);
    let command = creation(plain, format);
    match options.command {
        Some(shell) => {
            let full = creation(options, format);
            assert(full == command.with_secret(shell));
            assert(full.arguments.drop_last() =~= command.arguments);
        },
        None => {},
    }
}

proof fn lemma_no_secrets(options: SessionOptionsV, format: Seq<char>)
    requires
        options.command is None,
    ensures
        creation(options, format).arguments.len() > 0,
        creation(options, format).name == "new-session"@,
        creation(options, format).arguments[0] == (command::ArgumentV {
            bytes: encode_utf8("-d"@),
            sensitive: false,
        }),
        command::secrets(creation(options, format).arguments) == 0,
{
    let command = creation(options, format);
    assert forall|i: int| 0 <= i < command.arguments.len() implies !(
    #[trigger] command.arguments[i]).sensitive by {}
    lemma_plain_arguments(command.arguments);
}

proof fn lemma_plain_arguments(arguments: Seq<command::ArgumentV>)
    requires
        forall|i: int| 0 <= i < arguments.len() ==> !(#[trigger] arguments[i]).sensitive,
    ensures
        command::secrets(arguments) == 0,
    decreases arguments.len(),
{
    if arguments.len() > 0 {
        assert forall|i: int| 0 <= i < arguments.drop_last().len() implies !(
        #[trigger] arguments.drop_last()[i]).sensitive by {
            assert(arguments.drop_last()[i] == arguments[i]);
        }
        lemma_plain_arguments(arguments.drop_last());
        assert(!arguments[arguments.len() - 1].sensitive);
    }
}

/// Each option reaches the command whatever the others are, and where it is
/// not set it adds nothing: the name behind `-s`, then the directory behind
/// `-c`, the name of the window behind `-n`, the size behind `-x` and `-y`, and
/// the shell command last, which alone is kept out of diagnostics.
#[verifier::spinoff_prover]
pub proof fn law_session_options_reach_the_command(options: SessionOptionsV, format: Seq<char>)
    ensures
        ({
            let command = creation(options, format);
            let held = command.arguments;
            let directory: int = if options.start_directory is Some { 2 } else { 0 };
            let name: int = if options.window_name is Some { 2 } else { 0 };
            let size: int = if options.width is Some && options.height is Some { 4 } else { 0 };
            let shell: int = if options.command is Some { 1 } else { 0 };
            let flags = 6 + directory + name;
            &&& command.name == "new-session"@
            &&& held.len() == flags + size + shell
            &&& held[0].bytes == encode_utf8("-d"@)
            &&& held[1].bytes == encode_utf8("-P"@)
            &&& held[2].bytes == encode_utf8("-F"@)
            &&& held[3].bytes == encode_utf8(format)
            &&& held[4].bytes == encode_utf8("-s"@)
            &&& held[5].bytes == options.name
            &&& options.start_directory matches Some(path) ==> held[6].bytes == encode_utf8("-c"@)
                && held[7].bytes == path
            &&& options.window_name matches Some(name) ==> held[6 + directory].bytes
                == encode_utf8("-n"@) && held[7 + directory].bytes == name
            &&& size == 4 ==> held[flags].bytes == encode_utf8("-x"@) && held[flags + 1].bytes
                == encode_utf8(decimal::decimal(options.width->0 as nat)) && held[flags + 2].bytes
                == encode_utf8("-y"@) && held[flags + 3].bytes == encode_utf8(
                decimal::decimal(options.height->0 as nat),
            )
            &&& options.command matches Some(command) ==> held.last().bytes == command
                && held.last().sensitive
            &&& forall|i: int|
                0 <= i < flags + size ==> !(#[trigger] held[i]).sensitive
        }),
{
}

/// Whether a release comes before a final one, by its parts.
pub open spec fn below(release: ReleaseVersion, major: int, minor: int) -> bool {
    release.major < major || (release.major == major && (release.minor < minor || (release.minor
        == minor && release.suffix is Candidate)))
}

/// The access list and the histories of prompts are refused below 3.3, key
/// bindings as fields below 3.7, and the output of shell commands from 3.3 up
/// to but without 3.5. Candidates of a release come before it. A build between
/// releases is refused nothing.
pub proof fn law_gates_stand_at_their_releases(found: TmuxVersion)
    ensures
        match found {
            TmuxVersion::Development => without_access_list(found) is None
                && without_prompt_history(found) is None && without_typed_key_bindings(found)
                is None && without_shell_output(found) is None && !too_old(
                found,
                supported_since(),
            ),
            TmuxVersion::Release(release) => {
                &&& without_access_list(found) is Some <==> below(release, 3, 3)
                &&& without_prompt_history(found) is Some <==> below(release, 3, 3)
                &&& without_typed_key_bindings(found) is Some <==> below(release, 3, 7)
                &&& without_shell_output(found) is Some <==> !below(release, 3, 3) && below(
                    release,
                    3,
                    5,
                )
                &&& too_old(found, supported_since()) <==> below(release, 3, 2) || (release.major
                    == 3 && release.minor == 2 && (release.suffix is Final
                    || (release.suffix matches ReleaseSuffix::Letter(letter) && letter < 97)))
            },
        },
{
}

/// A refused capability is reported with the version that was found and the
/// release that offers it, or the releases that break and mend it.
pub proof fn law_gates_name_their_releases(found: TmuxVersion)
    ensures
        without_access_list(found) matches Some(failure) ==> failure
            == (error::ErrorV::UnsupportedCapability {
            capability: "the server access list"@,
            needs: ReleaseVersion { major: 3, minor: 3, suffix: ReleaseSuffix::Final },
            found,
        }),
        without_prompt_history(found) matches Some(failure) ==> failure
            == (error::ErrorV::UnsupportedCapability {
            capability: "prompt history"@,
            needs: ReleaseVersion { major: 3, minor: 3, suffix: ReleaseSuffix::Final },
            found,
        }),
        without_typed_key_bindings(found) matches Some(failure) ==> failure
            == (error::ErrorV::UnsupportedCapability {
            capability: "list-keys formats"@,
            needs: ReleaseVersion { major: 3, minor: 7, suffix: ReleaseSuffix::Final },
            found,
        }),
        without_shell_output(found) matches Some(failure) ==> failure
            == (error::ErrorV::CapabilityDefective {
            capability: "run-shell output"@,
            found,
            broken_in: ReleaseVersion { major: 3, minor: 3, suffix: ReleaseSuffix::Final },
            fixed_in: ReleaseVersion { major: 3, minor: 5, suffix: ReleaseSuffix::Final },
        }),
{
}

/// A release is too old exactly where it comes before the one that is needed,
/// and inside a range exactly where it does not come before the first release
/// of the range and comes before the one behind it.
pub proof fn law_ranges_of_releases(
    release: ReleaseVersion,
    first: ReleaseVersion,
    behind: ReleaseVersion,
)
    ensures
        too_old(TmuxVersion::Release(release), first) <==> release.before(first),
        defective(TmuxVersion::Release(release), first, behind) <==> !too_old(
            TmuxVersion::Release(release),
            first,
        ) && too_old(TmuxVersion::Release(release), behind),
        !too_old(TmuxVersion::Development, first),
        !defective(TmuxVersion::Development, first, behind),
        !too_old(TmuxVersion::Release(first), first),
        first.before(behind) ==> defective(TmuxVersion::Release(first), first, behind),
        !defective(TmuxVersion::Release(behind), first, behind),
{
}

/// What tmux prints of a daemon is read as the daemon: its process identity
/// and its start time. One word, or none, names no daemon.
pub proof fn law_generations_are_read_back(generation: ServerGeneration, word: Seq<char>)
    requires
        forall|i: int| 0 <= i < word.len() ==> !output::is_space(#[trigger] word[i]),
    ensures
        generation_of(
            decimal::signed_decimal(generation.pid as int) + seq![' '] + decimal::signed_decimal(
                generation.start_time as int,
            ),
        ) == Ok::<ServerGeneration, error::ErrorV>(generation),
        generation_of(word) == Err::<ServerGeneration, error::ErrorV>(
            error::ErrorV::UnreadableFormatValue { format: "#{pid} #{start_time}"@ },
        ),
{
    let pid = decimal::signed_decimal(generation.pid as int);
    let start = decimal::signed_decimal(generation.start_time as int);
    lemma_notation_is_a_word(generation.pid as int);
    lemma_notation_is_a_word(generation.start_time as int);
    let none = Seq::<char>::empty();
    let text = pid + seq![' '] + start;
    output::law_words_are_parted_by_white_space(none, pid, seq![' '] + start);
    assert(none + pid + (seq![' '] + start) =~= text);
    output::law_words_are_parted_by_white_space(seq![' '], start, none);
    assert(seq![' '] + start + none =~= seq![' '] + start);
    output::law_words_are_parted_by_white_space(none, start, none);
    let words = output::words_of(text);
    assert(words[0] == pid);
    assert(words[1] == start);
    if word.len() > 0 {
        output::law_words_are_parted_by_white_space(none, word, none);
        assert(none + word + none =~= word);
    } else {
        output::law_words_are_parted_by_white_space(word, start, none);
    }
}

proof fn lemma_notation_is_a_word(value: int)
    ensures
        decimal::signed_decimal(value).len() > 0,
        forall|i: int|
            0 <= i < decimal::signed_decimal(value).len() ==> !output::is_space(
                #[trigger] decimal::signed_decimal(value)[i],
            ),
        output::integer_denoted(encode_utf8(decimal::signed_decimal(value))) == Some(value),
        value >= 0 ==> output::unsigned_denoted(encode_utf8(decimal::signed_decimal(value)))
            == Some(value),
{
    let written = decimal::signed_decimal(value);
    let magnitude = if value < 0 { (-value) as nat } else { value as nat };
    let digits = text::ascii(decimal::decimal(magnitude));
    decimal::lemma_notation_digits(magnitude);
    decimal::lemma_signed_decimal_is_ascii(value);
    text::lemma_ascii_encoding(written);
    output::law_numbers_are_signed_digits(digits);
    decimal::law_notation_is_positional(magnitude, 0, digits);
    if value < 0 {
        assert(text::ascii(written) =~= seq![45u8] + digits);
    } else {
        assert(text::ascii(written) =~= digits);
    }
    decimal::lemma_notation_characters(magnitude);
    assert forall|i: int| 0 <= i < written.len() implies !output::is_space(
        #[trigger] written[i],
    ) by {
        if value < 0 && i > 0 {
            assert(written[i] == decimal::decimal(magnitude)[i - 1]);
        }
    }
}

/// The rendering of options shows which of them are set and the size, and
/// neither a name, a path nor a command.
pub proof fn law_renderings_hide_what_sessions_run(left: SessionOptionsV, right: SessionOptionsV)
    requires
        left.start_directory is Some <==> right.start_directory is Some,
        left.window_name is Some <==> right.window_name is Some,
        left.command is Some <==> right.command is Some,
        left.width == right.width,
        left.height == right.height,
    ensures
        options_rendering(left) == options_rendering(right),
        options_rendering(left) == text::open_rendering(
            "NewSessionOptions"@,
            seq![
                (
                    "has_start_directory"@,
                    if left.start_directory is Some {
                        "true"@
                    } else {
                        "false"@
                    },
                ),
                (
                    "has_window_name"@,
                    if left.window_name is Some {
                        "true"@
                    } else {
                        "false"@
                    },
                ),
                (
                    "has_command"@,
                    if left.command is Some {
                        "true"@
                    } else {
                        "false"@
                    },
                ),
                ("width"@, maybe_number(left.width)),
                ("height"@, maybe_number(left.height)),
            ],
        ),
        maybe_number(None) == "None"@,
        left.width matches Some(width) ==> maybe_number(left.width) == "Some("@ + decimal::decimal(
            width as nat,
        ) + ")"@,
{
}

/// A text names a daemon exactly where its first word is a process identity and
/// its second a start time, both in range. Words behind them are ignored.
pub proof fn law_daemons_are_named_by_two_words(text: Seq<char>, generation: ServerGeneration)
    ensures
        generation_of(text) == Ok::<ServerGeneration, error::ErrorV>(generation) <==> {
            let words = output::words_of(text);
            &&& words.len() >= 2
            &&& output::unsigned_denoted(encode_utf8(words[0])) == Some(generation.pid as int)
            &&& output::integer_denoted(encode_utf8(words[1])) == Some(
                generation.start_time as int,
            )
        },
        generation_of(text) matches Err(failure) ==> failure
            == (error::ErrorV::UnreadableFormatValue { format: "#{pid} #{start_time}"@ }),
{
}

} // verus!
