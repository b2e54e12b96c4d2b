//! A server: endpoints, the commands asked of it and what its answers mean.

use libtmux::client::Client;
use libtmux::command::{Argument, Command, CommandResult};
use libtmux::error::{
    Error, ErrorKind, ObjectKind, ServerConfigurationErrorKind, ServerGeneration,
};
use libtmux::formats::catalog::DecoderKind;
use libtmux::formats::error::{FormatCodecErrorKind, ListProfile};
use libtmux::formats::plan::{FormatDescriptor, FormatPlan};
use libtmux::output;
use libtmux::pane::Pane;
use libtmux::query::filterable::Filterable;
use libtmux::server::access::{parse_access_rules, AccessMode, PromptKind};
use libtmux::server::builder::{BuildContext, ServerBuilder};
use libtmux::server::channels::{ChannelWait, ScopeError};
use libtmux::server::environment::{collect_environment, read_environment_names, Answer};
use libtmux::server::interactive::{Chooser, MenuItem};
use libtmux::server::keys::{parse, KeyBinding};
use libtmux::server::lifecycle::NewSessionOptions;
use libtmux::server::limits::{DispatchLimits, OutputLimits};
use libtmux::server::settings::{
    collect_options, index_name, parse_entry, parse_index, read_array_indices, read_environment,
    read_option, read_option_names, EnvironmentEntry, HookEntry, OptionAnswer, OptionScope,
    ReplaceMode,
};
use libtmux::server::{Server, Timeout};
use libtmux::session::new_window::{NewWindowOptions, WindowPlacement};
use libtmux::session::operations::Step;
use libtmux::session::Session;
use libtmux::snapshot::client_info::hydrate_client_infos_from_stdout;
use libtmux::snapshot::projection::{pane_projection_plan, window_projection_plan};
use libtmux::target::{PaneId, ServerIdentity, SessionId, WindowId};
use libtmux::text::TmuxText;
use libtmux::version::{ReleaseSuffix, ReleaseVersion, TmuxVersion};
use libtmux::window::Window;

fn context() -> BuildContext {
    BuildContext {
        working_directory: Some(b"/work".to_vec()),
        socket_root: Some(b"/tmp/tmux-1000/".to_vec()),
    }
}

fn built(builder: ServerBuilder) -> Server {
    builder.build(&context()).ok().expect("the configuration is usable")
}

fn server() -> Server {
    built(Server::builder().socket_path(b"/tmp/tmux-1000/default".to_vec()))
}

fn configuration_error(result: Result<Server, Error>) -> ServerConfigurationErrorKind {
    match result {
        Err(Error::InvalidServerConfiguration(kind)) => kind,
        _ => panic!("a configuration error"),
    }
}

fn version(raw: &[u8]) -> TmuxVersion {
    TmuxVersion::parse_output(raw).ok().expect("fixture version")
}

fn words(command: &Command) -> Vec<String> {
    let mut words = vec![command.name().to_owned()];
    for argument in command.arguments() {
        words.push(String::from_utf8_lossy(argument.as_bytes()).into_owned());
    }
    words
}

fn accepted(command: &Command, stdout: &[u8]) -> CommandResult {
    CommandResult::new(command.summary(), Some(0), stdout.to_vec(), Vec::new())
}

fn refused(command: &Command, stderr: &[u8]) -> CommandResult {
    CommandResult::new(command.summary(), Some(1), Vec::new(), stderr.to_vec())
}

fn default_format_value(descriptor: &FormatDescriptor) -> &'static [u8] {
    match descriptor.name() {
        "session_id" => b"$1",
        "window_id" => b"@1",
        "pane_id" => b"%1",
        "client_name" => b"client",
        _ => match descriptor.decoder() {
            DecoderKind::Ascii => b"ascii",
            DecoderKind::Text => b"text",
            DecoderKind::Bool
            | DecoderKind::U8
            | DecoderKind::U32
            | DecoderKind::U64
            | DecoderKind::I32
            | DecoderKind::Timestamp
            | DecoderKind::PaneProgress => b"0",
            DecoderKind::SessionId => b"$1",
            DecoderKind::WindowId => b"@1",
            DecoderKind::PaneId => b"%1",
            DecoderKind::PaneProgressState => b"normal",
        },
    }
}

fn row(plan: &FormatPlan, overrides: &[(&str, &[u8])]) -> Vec<u8> {
    let mut stdout = Vec::new();
    for descriptor in plan.selected() {
        let value = overrides
            .iter()
            .find(|(name, _)| *name == descriptor.name())
            .map_or_else(|| default_format_value(&descriptor), |(_, value)| *value);
        for byte in value {
            if matches!(*byte, b'\\' | b'%') {
                stdout.push(b'\\');
            }
            stdout.push(*byte);
        }
        stdout.push(b'%');
    }
    stdout.push(b'\n');
    stdout
}

fn listing(plan: &FormatPlan, rows: &[&[(&str, &[u8])]]) -> Vec<u8> {
    rows.iter().flat_map(|overrides| row(plan, overrides)).collect()
}

fn sessions(rows: &[&[(&str, &[u8])]]) -> Vec<Session> {
    let found = version(b"tmux 3.7b\n");
    let plan = FormatPlan::for_profile(ListProfile::Sessions, &found);
    let server = server();
    let command = server.sessions(&found);
    server
        .read_sessions(&found, &accepted(&command, &listing(&plan, rows)))
        .ok()
        .expect("fixture session listing")
}

fn windows(rows: &[&[(&str, &[u8])]]) -> Vec<Window> {
    let found = version(b"tmux 3.7b\n");
    let plan = window_projection_plan(&found).ok().expect("window plan");
    let server = server();
    let command = server.windows(&found);
    server
        .read_windows(&found, &accepted(&command, &listing(&plan, rows)))
        .ok()
        .expect("fixture window listing")
}

fn panes(rows: &[&[(&str, &[u8])]]) -> Vec<Pane> {
    let found = version(b"tmux 3.7b\n");
    let plan = pane_projection_plan(&found).ok().expect("pane plan");
    let server = server();
    let command = server.panes(&found);
    server
        .read_panes(&found, &accepted(&command, &listing(&plan, rows)))
        .ok()
        .expect("fixture pane listing")
}

fn client_on(endpoint: &[u8], name: &[u8]) -> Client {
    let plan = FormatPlan::for_profile(ListProfile::Clients, &version(b"tmux 3.7b\n"));
    let stdout = row(&plan, &[("client_name", name)]);
    let info = hydrate_client_infos_from_stdout(&plan, &stdout)
        .ok()
        .expect("fixture client listing")
        .pop()
        .expect("one client");
    Client::new(ServerIdentity::from_socket_path(endpoint.to_vec()), info)
}

// Key bindings.

fn binding(table: &str, key: &str, command: &str) -> KeyBinding {
    KeyBinding::new(
        TmuxText::from_text(table),
        TmuxText::from_text(key),
        TmuxText::from_text(command),
        None,
        false,
    )
}

/// tmux 3.7c's output for two bindings; its `#{q:}` leaves LF bare.
#[test]
fn rows_decode_escapes_and_keep_bare_newlines() {
    let stdout = br#"solo=M-\'=0==display-message\ a\=b\ \\\;\ display-message\ c=
sp\ ace=\"=1=a
note=display-message\ \"two\ words\"=
"#;

    let solo = binding("solo", "M-'", r"display-message a=b \; display-message c");
    let spaced = KeyBinding::new(
        TmuxText::from_text("sp ace"),
        TmuxText::from_text("\""),
        TmuxText::from_text("display-message \"two words\""),
        Some(TmuxText::from_text("a\nnote")),
        true,
    );

    let parsed = parse(stdout).ok().expect("the listing frames");
    assert!(parsed == vec![solo, spaced]);
    let parsed = parse(b"").ok().expect("an empty listing frames");
    assert!(parsed == Vec::new());
}

/// Each malformed shape fails the listing; none yields a shorter one.
#[test]
fn a_row_that_does_not_frame_fails_the_listing() {
    let good = b"root=x=0==send-keys=\n".as_slice();
    for (stdout, kind) in [
        (
            b"root=x=0==send-keys".as_slice(),
            FormatCodecErrorKind::MissingFieldTerminator,
        ),
        (b"root=x=0==send-keys=", FormatCodecErrorKind::MissingRowLf),
        (
            b"root=x=0==send-keys=x\n",
            FormatCodecErrorKind::UnexpectedRowTerminator,
        ),
        (
            b"root=\\x=0==send-keys=\n",
            FormatCodecErrorKind::InvalidEscape,
        ),
        (b"root=x\\", FormatCodecErrorKind::DanglingEscape),
        (
            b"root=x\0=0==send-keys=\n",
            FormatCodecErrorKind::EmbeddedNul,
        ),
        (
            b"root=x=2==send-keys=\n",
            FormatCodecErrorKind::InvalidValue,
        ),
    ] {
        let listing = [good, stdout].concat();
        let error = parse(&listing).err().expect("a malformed row fails");
        assert_eq!(error.kind(), kind, "{:?}", String::from_utf8_lossy(stdout));
        assert_eq!(error.row(), Some(1));
    }
}

#[test]
fn key_binding_commands_name_their_table() {
    let server = server();
    assert_eq!(
        words(&server.bind_key("root", "F5", b"display-message hi".to_vec())),
        ["bind-key", "-T", "root", "F5", "display-message hi"]
    );
    assert_eq!(
        words(&server.unbind_key("prefix", "x")),
        ["unbind-key", "-T", "prefix", "x"]
    );
    assert_eq!(words(&server.key_bindings(None)), ["list-keys"]);
    assert_eq!(
        words(&server.key_bindings(Some("root"))),
        ["list-keys", "-T", "root"]
    );

    let command = server.key_bindings(None);
    let lines = Server::read_key_bindings(&accepted(&command, b"bind-key a b\nbind-key c d\n"))
        .ok()
        .expect("the listing is accepted");
    assert_eq!(lines, ["bind-key a b", "bind-key c d"]);

    for message in ["table root doesn't exist\n", "no server running on /tmp/a\n"] {
        match Server::read_key_bindings(&refused(&command, message.as_bytes())) {
            Err(Error::CommandFailed { command, exit_code, stderr }) => {
                assert_eq!(command, "list-keys");
                assert_eq!(exit_code, Some(1));
                assert_eq!(stderr.as_deref(), Some(message));
            }
            _ => panic!("a failed command"),
        }
    }
}

#[test]
fn typed_key_bindings_keep_one_table() {
    let command = server()
        .typed_key_bindings(&version(b"tmux 3.7\n"))
        .ok()
        .expect("the release lists fields");
    let stdout = b"root=a=0==first=\nprefix=b=0==second=\nroot=c=1==third=\n";
    let all = Server::read_typed_key_bindings(&accepted(&command, stdout), None)
        .ok()
        .expect("the listing frames");
    assert_eq!(all.len(), 3);
    let root = Server::read_typed_key_bindings(&accepted(&command, stdout), Some("root"))
        .ok()
        .expect("the listing frames");
    let commands: Vec<&[u8]> = root.iter().map(|kept| kept.command().as_bytes()).collect();
    assert_eq!(commands, [b"first".as_slice(), b"third".as_slice()]);
    assert!(root[1].repeats());

    let error = Server::read_typed_key_bindings(&accepted(&command, b"root=a"), None)
        .err()
        .expect("a listing that does not frame fails");
    assert!(matches!(
        error,
        Error::DecodeListing { list_command: "list-keys", .. }
    ));
    assert_eq!(error.kind(), ErrorKind::Decode);
}

// Endpoints.

#[test]
fn named_sockets_stand_under_the_socket_root() {
    let server = built(Server::builder().socket_name(b"work".to_vec()));
    assert_eq!(server.socket_path(), b"/tmp/tmux-1000/work");
    assert_eq!(server.socket_name(), Some(b"work".as_slice()));
    assert!(server.config_file().is_none());
    assert_eq!(server.colors(), None);
    assert_eq!(server.tmux_executable(), b"tmux");
    assert_eq!(server.default_timeout(), Timeout::from_secs(30));

    let unnamed = Server::new(&context()).ok().expect("the default endpoint");
    assert_eq!(unnamed.socket_path(), b"/tmp/tmux-1000/default");
    assert!(unnamed.socket_name().is_none());
}

#[test]
fn relative_paths_are_joined_to_the_working_directory() {
    let server = built(
        Server::builder()
            .socket_path(b"run/socket".to_vec())
            .config_file(b"tmux.conf".to_vec())
            .colors(256)
            .tmux_executable(b"/opt/tmux".to_vec())
            .default_timeout(Timeout::from_secs(5)),
    );
    assert_eq!(server.socket_path(), b"/work/run/socket");
    assert_eq!(server.config_file(), Some(b"/work/tmux.conf".as_slice()));
    assert_eq!(server.colors(), Some(256));
    assert_eq!(server.tmux_executable(), b"/opt/tmux");
    assert_eq!(server.default_timeout(), Timeout::from_secs(5));
}

#[test]
fn unusable_configurations_are_refused() {
    let nowhere = BuildContext { working_directory: None, socket_root: None };
    let cases: Vec<(ServerBuilder, &BuildContext, ServerConfigurationErrorKind)> = vec![
        (
            Server::builder()
                .socket_name(b"a".to_vec())
                .socket_path(b"/b".to_vec()),
            &nowhere,
            ServerConfigurationErrorKind::ConflictingSocketSelectors,
        ),
        (
            Server::builder().socket_path(Vec::new()),
            &nowhere,
            ServerConfigurationErrorKind::EmptyPath,
        ),
        (
            Server::builder().socket_path(b"a".to_vec()),
            &nowhere,
            ServerConfigurationErrorKind::WorkingDirectoryUnavailable,
        ),
        (
            Server::builder().socket_name(b"a/b".to_vec()),
            &nowhere,
            ServerConfigurationErrorKind::InvalidSocketName,
        ),
        (
            Server::builder(),
            &nowhere,
            ServerConfigurationErrorKind::SocketRootUnavailable,
        ),
        (
            Server::builder().socket_path(b"/a".to_vec()).colors(16),
            &nowhere,
            ServerConfigurationErrorKind::InvalidColors,
        ),
    ];
    for (builder, context, kind) in cases {
        let result = builder.build(context);
        assert_eq!(configuration_error(result), kind);
    }
    let error = Server::builder().build(&nowhere).err().expect("no socket root");
    assert_eq!(error.kind(), ErrorKind::Invalid);
}

#[test]
fn tmux_variables_name_the_socket_before_the_first_comma() {
    let server = Server::from_env_value(Some(b"/tmp/a,123,0"), &context())
        .ok()
        .expect("a well-formed variable");
    assert_eq!(server.socket_path(), b"/tmp/a");
    let documented = Server::from_env_value(Some(b"/tmp/tmux-1000/default,7,$0"), &context())
        .ok()
        .expect("a well-formed variable");
    assert_eq!(documented.socket_path(), b"/tmp/tmux-1000/default");
    assert_eq!(
        configuration_error(Server::from_env_value(None, &context())),
        ServerConfigurationErrorKind::NotInsideTmux
    );
    for malformed in [
        b"".as_slice(),
        b",1,2",
        b"/tmp/a",
        b"/tmp/a,",
        b"/tmp/a,1",
        b"/tmp/a,1,",
        b"/tmp/a,,0",
    ] {
        assert_eq!(
            configuration_error(Server::from_env_value(Some(malformed), &context())),
            ServerConfigurationErrorKind::MalformedTmuxVariable
        );
    }
}

#[test]
fn servers_are_equal_by_endpoint_and_render_without_it() {
    let named = built(Server::builder().socket_name(b"secret-name".to_vec()));
    let by_path = built(Server::builder().socket_path(b"/tmp/tmux-1000/secret-name".to_vec()));
    assert!(named == by_path);
    assert!(named != server());
    assert_eq!(
        named.debug_text(),
        "Server { identity: ServerIdentity { .. }, .. }"
    );
    let rendered = Server::builder().socket_name(b"secret-name".to_vec()).debug_text();
    assert!(!rendered.contains("secret-name"));
    assert_eq!(
        rendered,
        "ServerBuilder { socket_name: Some(\"<redacted>\"), socket_path: None, \
         config_file: None, colors: None, timeout: 30s, \
         output_limits: OutputLimits { max_stdout_bytes: None }, \
         dispatch_limits: DispatchLimits { max_in_flight: None }, .. }"
    );
    let span = |seconds, nanoseconds| {
        let timeout = libtmux::server::Timeout { seconds, nanoseconds };
        Server::builder().default_timeout(timeout).debug_text()
    };
    assert!(span(1, 500_000_000).contains("timeout: 1.5s, "));
    assert!(span(1, 2_500_000_000).contains("timeout: 3.5s, "));
    assert_eq!(span(u64::MAX, 1_000_000_000), span(u64::MAX, 999_999_999));
}

// Versions and capabilities.

#[test]
fn capabilities_follow_the_release() {
    let old = version(b"tmux 3.2a\n");
    let new = version(b"tmux 3.7\n");
    let development = version(b"tmux master\n");
    assert!(Server::require_access_list(&new).is_ok());
    assert!(Server::require_access_list(&development).is_ok());
    let error = Server::require_access_list(&old).err().expect("too old");
    assert_eq!(error.kind(), ErrorKind::Unsupported);
    match error {
        Error::UnsupportedCapability { needs, found, .. } => {
            assert_eq!(needs, ReleaseVersion::new(3, 3, ReleaseSuffix::Final));
            assert_eq!(found, old);
        }
        _ => panic!("an unsupported capability"),
    }
    assert!(Server::require_prompt_history(&old).is_err());
    assert!(Server::require_typed_key_bindings(&new).is_ok());
}

#[test]
fn defective_ranges_stop_before_the_fix() {
    for (raw, defective) in [
        (b"tmux 3.2a\n".as_slice(), false),
        (b"tmux 3.3\n", true),
        (b"tmux 3.4\n", true),
        (b"tmux 3.5\n", false),
        (b"tmux master\n", false),
    ] {
        let outcome = Server::require_shell_output(&version(raw));
        assert_eq!(outcome.is_err(), defective, "{:?}", String::from_utf8_lossy(raw));
        if let Err(error) = outcome {
            assert!(matches!(error, Error::CapabilityDefective { .. }));
            assert_eq!(error.kind(), ErrorKind::Unsupported);
        }
    }
}

#[test]
fn commands_are_given_only_where_the_release_offers_them() {
    let server = server();
    let old = version(b"tmux 3.2a\n");
    let broken = version(b"tmux 3.4\n");
    let unsupported = |given: Result<Command, Error>| match given {
        Err(Error::UnsupportedCapability { capability, needs, found }) => {
            assert!(found == old || found == broken);
            (capability, needs)
        }
        _ => panic!("an unsupported capability"),
    };
    let three = ReleaseVersion::new(3, 3, ReleaseSuffix::Final);
    let seven = ReleaseVersion::new(3, 7, ReleaseSuffix::Final);
    let list = ("the server access list", three);
    assert_eq!(unsupported(server.access_rules(&old)), list);
    assert_eq!(unsupported(server.grant_access(&old, "bob", AccessMode::Write)), list);
    assert_eq!(unsupported(server.revoke_access(&old, "bob")), list);
    let history = ("prompt history", three);
    assert_eq!(unsupported(server.prompt_history(&old, PromptKind::Command)), history);
    assert_eq!(unsupported(server.clear_prompt_history(&old)), history);
    assert_eq!(
        unsupported(server.typed_key_bindings(&broken)),
        ("list-keys formats", seven)
    );
    match server.run_shell(&broken, b"true".to_vec()) {
        Err(Error::CapabilityDefective { capability, found, broken_in, fixed_in }) => {
            assert_eq!(capability, "run-shell output");
            assert_eq!(found, broken);
            assert_eq!(broken_in, three);
            assert_eq!(fixed_in, ReleaseVersion::new(3, 5, ReleaseSuffix::Final));
        }
        _ => panic!("a defective capability"),
    }

    let cleared = server.clear_prompt_history(&broken).ok().expect("an offered command");
    assert_eq!(words(&cleared), ["clear-prompt-history"]);
    let run = server.run_shell(&old, b"true".to_vec()).ok().expect("a working release");
    assert_eq!(words(&run), ["run-shell", "true"]);
}

#[test]
fn versions_read_releases_and_development_builds() {
    assert_eq!(
        version(b"tmux 3.2a\n").release(),
        Some(ReleaseVersion::new(3, 2, ReleaseSuffix::Letter(b'a')))
    );
    assert_eq!(version(b"tmux next-3.8\n").release(), None);
    assert_eq!(version(b"tmux master\n").release(), None);
    for malformed in [b"".as_slice(), b"tmux", b"tmux \n", b"tmux 3\n", b"screen 3.2\n"] {
        assert!(TmuxVersion::parse_output(malformed).is_err());
    }
}

// Lifecycle.

#[test]
fn killing_a_daemon_that_is_not_there_succeeds() {
    let command = server().kill();
    assert_eq!(words(&command), ["kill-server"]);
    let failed = refused(&command, b"no server running on /tmp/tmux-1000/default\n");
    assert!(Server::judge_kill(&failed, false).is_ok());
    match Server::judge_kill(&failed, true) {
        Err(Error::CommandFailed { command, exit_code, stderr }) => {
            assert_eq!(command, "kill-server");
            assert_eq!(exit_code, Some(1));
            assert_eq!(
                stderr.as_deref(),
                Some("no server running on /tmp/tmux-1000/default\n")
            );
        }
        _ => panic!("a failed command"),
    }
    assert!(Server::judge_kill(&accepted(&command, b""), true).is_ok());
}

#[test]
fn liveness_tells_absence_from_refusal() {
    let command = server().check_alive();
    let alive = Server::judge_alive(&accepted(&command, b""));
    assert!(Server::is_alive(&alive));
    let gone = Server::judge_alive(&refused(&command, b"error connecting to /tmp/x (No such file)"));
    assert!(!Server::is_alive(&gone));
    assert!(matches!(gone, Err(Error::ServerGone { command: "list-sessions" })));
    let error = Server::judge_alive(&refused(&command, b"protocol version mismatch\n"))
        .err()
        .expect("a refusal");
    assert_eq!(error.kind(), ErrorKind::Refused);
    match error {
        Error::CommandFailed { command, exit_code, stderr } => {
            assert_eq!(command, "list-sessions");
            assert_eq!(exit_code, Some(1));
            assert_eq!(stderr.as_deref(), Some("protocol version mismatch\n"));
        }
        _ => panic!("a failed command"),
    }
}

#[test]
fn generations_are_a_process_and_its_start() {
    let command = server().generation();
    assert_eq!(
        words(&command),
        ["display-message", "-p", "#{pid} #{start_time}"]
    );
    let generation = Server::read_generation(&accepted(&command, b"4711 1700000000\n"))
        .ok()
        .expect("a generation");
    assert_eq!(generation, ServerGeneration { pid: 4711, start_time: 1_700_000_000 });
    for unreadable in [b"\n".as_slice(), b"4711\n", b"x 1\n", b"4294967296 1\n"] {
        assert!(matches!(
            Server::read_generation(&accepted(&command, unreadable)),
            Err(Error::UnreadableFormatValue { .. })
        ));
    }
    assert!(Server::require_generation(generation, generation).is_ok());
    let answering = ServerGeneration { pid: 4711, start_time: 1 };
    let error = Server::require_generation(generation, answering)
        .err()
        .expect("another daemon");
    assert_eq!(error.kind(), ErrorKind::Gone);
    assert!(matches!(error, Error::ServerGenerationChanged { .. }));
}

#[test]
fn new_session_options_redact_the_shell_command() {
    let secret = "sentinel-session-command";
    let options = NewSessionOptions::new(b"work".to_vec()).command(secret.as_bytes().to_vec());
    assert!(!options.debug_text().contains(secret));

    let summary = options.into_command("#{session_id}").summary();
    assert_eq!(summary.sensitive_argument_count(), 1);
    assert!(!summary.text().contains(secret));
}

#[test]
fn sessions_are_created_detached_with_the_shell_command_last() {
    let options = NewSessionOptions::new(b"work".to_vec())
        .start_directory(b"/srv".to_vec())
        .window_name(b"main".to_vec())
        .command(b"htop".to_vec())
        .size(120, 40);
    assert_eq!(
        options.debug_text(),
        "NewSessionOptions { has_start_directory: true, has_window_name: true, \
         has_command: true, width: Some(120), height: Some(40), .. }"
    );
    let command = options.into_command("#{session_id}");
    assert_eq!(
        words(&command),
        [
            "new-session", "-d", "-P", "-F", "#{session_id}", "-s", "work", "-c", "/srv", "-n",
            "main", "-x", "120", "-y", "40", "htop",
        ]
    );
    let secrets: Vec<bool> = command
        .arguments()
        .iter()
        .map(|argument| argument.is_sensitive())
        .collect();
    assert_eq!(secrets.iter().filter(|secret| **secret).count(), 1);
    assert_eq!(secrets.last(), Some(&true));
    assert_eq!(
        words(&NewSessionOptions::new(b"s".to_vec()).into_command("f")),
        ["new-session", "-d", "-P", "-F", "f", "-s", "s"]
    );
}

#[test]
fn run_shell_failure_withholds_sensitive_output() {
    let command = server()
        .run_shell(&version(b"tmux 3.7b\n"), b"sentinel-run-shell-command".to_vec())
        .ok()
        .expect("the release prints shell output");
    assert_eq!(command.summary().sensitive_argument_count(), 1);
    let error = Server::read_shell(&refused(&command, b"sentinel-run-shell-output\n"))
        .err()
        .expect("the command is refused");
    match &error {
        Error::CommandFailed { command, exit_code, stderr } => {
            let diagnostic = format!("{command:?} {exit_code:?} {stderr:?}");
            for secret in ["sentinel-run-shell-command", "sentinel-run-shell-output"] {
                assert!(!diagnostic.contains(secret), "{diagnostic}");
            }
        }
        _ => panic!("a failed command"),
    }
    let summary = command.summary().text();
    assert!(!summary.contains("sentinel-run-shell-command"), "{summary}");
}

#[test]
fn shell_output_is_split_at_line_feeds() {
    let command = server()
        .run_shell(&version(b"tmux 3.7b\n"), b"true".to_vec())
        .ok()
        .expect("the release prints shell output");
    let lines = |stdout: &[u8]| -> Vec<Vec<u8>> {
        Server::read_shell(&accepted(&command, stdout))
            .ok()
            .expect("the command is accepted")
            .iter()
            .map(|line| line.as_bytes().to_vec())
            .collect()
    };
    assert_eq!(lines(b"one\n\ntwo\n"), [b"one".to_vec(), Vec::new(), b"two".to_vec()]);
    assert_eq!(lines(b"one\ntwo"), [b"one".to_vec(), b"two".to_vec()]);
    assert!(lines(b"").is_empty());
    assert_eq!(lines(b"\xff\n"), [vec![0xff]]);
    assert_eq!(
        words(&server().spawn_shell(b"sleep 1".to_vec())),
        ["run-shell", "-b", "sleep 1"]
    );
}

// Discovery.

#[test]
fn listings_are_read_in_order() {
    let listed = sessions(&[
        &[("session_id", b"$2"), ("session_name", b"two")],
        &[
            ("session_id", b"$1"),
            ("session_name", b"one"),
            ("session_attached", b"3"),
        ],
        &[("session_id", b"$5"), ("session_name", b"two")],
    ]);
    let ids: Vec<String> = listed.iter().map(|session| session.id().text()).collect();
    assert_eq!(ids, ["$2", "$1", "$5"]);
    assert!(Server::has_session(&listed, b"one"));
    assert!(!Server::has_session(&listed, b"three"));
    let found = Server::session(&listed, b"two").expect("a session with the name");
    assert_eq!(found.id().text(), "$2");
    let attached = Server::attached_sessions(&listed);
    assert_eq!(attached.len(), 1);
    assert_eq!(attached[0].attached_client_count(), 3);
    assert!(attached[0].is_attached());
}

#[test]
fn refused_and_malformed_listings_fail_or_are_empty() {
    let found = version(b"tmux 3.7b\n");
    let server = server();
    let command = server.sessions(&found);
    let refusal = refused(&command, b"no server running on /tmp/x\n");
    assert!(matches!(
        server.read_sessions(&found, &refusal),
        Err(Error::ServerGone { command: "list-sessions" })
    ));
    assert!(Server::sessions_or_empty(server.read_sessions(&found, &refusal)).is_empty());
    let malformed = server.read_sessions(&found, &accepted(&command, b"$1%"));
    assert!(matches!(
        malformed,
        Err(Error::DecodeListing { list_command: "list-sessions", .. })
    ));
    assert!(Server::windows_or_empty(Err(Error::Timeout { command: "list-windows" })).is_empty());
    assert!(Server::attached_sessions_or_empty(Err(Error::Timeout { command: "x" })).is_empty());
}

#[test]
fn identities_are_matched_by_tmux() {
    let found = version(b"tmux 3.7b\n");
    let server = server();
    let session = words(&server.session_by_id(&found, &SessionId::new(7)));
    assert_eq!(&session[..2], ["list-sessions", "-F"]);
    assert_eq!(&session[3..], ["-f", "#{==:#{session_id},$7}"]);
    let window = words(&server.window_by_id(&found, &WindowId::new(8)));
    assert_eq!(&window[..3], ["list-windows", "-a", "-F"]);
    assert_eq!(&window[4..], ["-f", "#{==:#{window_id},@8}"]);
    let pane = words(&server.pane_by_id(&found, &PaneId::new(9)));
    assert_eq!(&pane[..3], ["list-panes", "-a", "-F"]);
    assert_eq!(&pane[4..], ["-f", "#{==:#{pane_id},%9}"]);
}

#[test]
fn the_first_edge_stands_for_a_window() {
    let edges = windows(&[
        &[("session_id", b"$1"), ("window_index", b"2")],
        &[("session_id", b"$2"), ("window_index", b"1"), ("window_active", b"1")],
    ]);
    let standing = Server::standing_window(&edges).expect("one edge stands");
    assert_eq!(standing.session_id().text(), "$1");
    assert!(Server::standing_window(&Vec::new()).is_none());
}

#[test]
fn the_hierarchy_puts_panes_under_their_windows() {
    let listed = sessions(&[&[("session_id", b"$1")], &[("session_id", b"$2")]]);
    let edges = windows(&[
        &[("session_id", b"$1"), ("window_id", b"@1"), ("window_index", b"0")],
        &[("session_id", b"$2"), ("window_id", b"@1"), ("window_index", b"4")],
        &[("session_id", b"$9"), ("window_id", b"@3"), ("window_index", b"0")],
        &[("session_id", b"$1"), ("window_id", b"@9"), ("window_index", b"2")],
        &[("session_id", b"$1"), ("window_id", b"@2"), ("window_index", b"1")],
    ]);
    let rows = panes(&[
        &[("pane_id", b"%1"), ("session_id", b"$1"), ("window_id", b"@1")],
        &[("pane_id", b"%2"), ("session_id", b"$1"), ("window_id", b"@1")],
        &[("pane_id", b"%1"), ("session_id", b"$2"), ("window_id", b"@1")],
        &[("pane_id", b"%3"), ("session_id", b"$1"), ("window_id", b"@2")],
        &[("pane_id", b"%4"), ("session_id", b"$1"), ("window_id", b"@8")],
    ]);
    let trees = Server::hierarchy(&listed, &edges, &rows);
    let shape: Vec<(String, Vec<(String, Vec<String>)>)> = trees
        .iter()
        .map(|tree| {
            let held = tree
                .windows
                .iter()
                .map(|window| {
                    let panes = window.panes.iter().map(|pane| pane.id().text()).collect();
                    (window.window.id().text(), panes)
                })
                .collect();
            (tree.session.id().text(), held)
        })
        .collect();
    let shared = ("@1".to_owned(), vec!["%1".to_owned(), "%2".to_owned()]);
    let own = ("@2".to_owned(), vec!["%3".to_owned()]);
    assert_eq!(
        shape,
        [
            ("$1".to_owned(), vec![shared.clone(), own]),
            ("$2".to_owned(), vec![shared]),
        ]
    );
}

#[test]
fn hierarchies_are_filtered_through_their_relations() {
    let listed = sessions(&[&[("session_id", b"$1")], &[("session_id", b"$2")]]);
    let edges = windows(&[
        &[("session_id", b"$1"), ("window_id", b"@1"), ("window_name", b"logs")],
        &[("session_id", b"$2"), ("window_id", b"@2"), ("window_name", b"code")],
    ]);
    let rows = panes(&[
        &[("pane_id", b"%1"), ("window_id", b"@1"), ("pane_width", b"80")],
        &[("pane_id", b"%2"), ("window_id", b"@2"), ("pane_width", b"120")],
    ]);
    let trees = Server::hierarchy(&listed, &edges, &rows);
    let tree_fields = libtmux::server::hierarchy::SessionTree::filter_fields();
    let window_fields = libtmux::server::hierarchy::WindowTree::filter_fields();
    let wide = Pane::filter_fields().pane_width.gt(100);
    let has_wide = tree_fields.windows.any(window_fields.panes.any(wide));
    let kept: Vec<String> = trees
        .iter()
        .filter(|tree| has_wide.matches(tree))
        .map(|tree| tree.session.id().text())
        .collect();
    assert_eq!(kept, ["$2"]);
    let found = Server::search(&trees, &has_wide);
    assert_eq!(found.len(), 1);
    assert_eq!(found[0].session.id().text(), "$2");
    assert_eq!(found[0].windows[0].panes[0].id().text(), "%2");
    assert_eq!(Server::search(&trees, &has_wide.copy().or(has_wide.not())).len(), 2);
    let logs = tree_fields.windows.all(window_fields.window.window_name.eq("logs"));
    assert!(logs.matches(&trees[0]));
    assert!(!logs.matches(&trees[1]));
    let no_logs = tree_fields.windows.none(window_fields.window.window_name.eq("logs"));
    assert!(!no_logs.matches(&trees[0]));
    assert!(no_logs.matches(&trees[1]));
    assert!(tree_fields.session.session_id.eq("$1").matches(&trees[0]));
}

#[test]
fn identities_are_read_through_the_first_row() {
    let found = version(b"tmux 3.7b\n");
    let server = server();
    let plan = window_projection_plan(&found).ok().expect("window plan");
    let command = server.window_by_id(&found, &WindowId::new(8));
    let rows: [&[(&str, &[u8])]; 2] = [
        &[("session_id", b"$4"), ("window_id", b"@8"), ("window_index", b"5")],
        &[("session_id", b"$2"), ("window_id", b"@8"), ("window_active", b"1")],
    ];
    let window = server
        .read_window_by_id(&found, &accepted(&command, &listing(&plan, &rows)))
        .ok()
        .expect("the listing decodes")
        .expect("a window");
    assert_eq!((window.session_id().text(), window.index()), ("$4".to_owned(), 5));
    let none = server.read_window_by_id(&found, &accepted(&command, b""));
    assert!(none.ok().expect("an empty listing").is_none());
    assert!(server
        .read_window_by_id(&found, &refused(&command, b"no such window"))
        .is_err());
    let pane_plan = pane_projection_plan(&found).ok().expect("pane plan");
    let command = server.pane_by_id(&found, &PaneId::new(9));
    let pane_rows: [&[(&str, &[u8])]; 1] = [&[("pane_id", b"%9")]];
    let pane = server
        .read_pane_by_id(&found, &accepted(&command, &listing(&pane_plan, &pane_rows)))
        .ok()
        .expect("the listing decodes")
        .expect("a pane");
    assert_eq!(pane.id().text(), "%9");
    let session_plan = FormatPlan::for_profile(ListProfile::Sessions, &found);
    let command = server.session_by_id(&found, &SessionId::new(7));
    let session_rows: [&[(&str, &[u8])]; 1] = [&[("session_id", b"$7")]];
    let session = server
        .read_session_by_id(&found, &accepted(&command, &listing(&session_plan, &session_rows)))
        .ok()
        .expect("the listing decodes")
        .expect("a session");
    assert_eq!(session.id().text(), "$7");
    let at = session.window_at(&found, 5);
    let window = session
        .read_window_at(&found, &accepted(&at, &listing(&plan, &rows)))
        .ok()
        .expect("the listing decodes")
        .expect("a window");
    assert_eq!(window.index(), 5);
}

#[test]
fn limits_bound_what_is_read_and_what_runs() {
    let output = OutputLimits::default().max_stdout_bytes(3);
    assert!(output.allows(3));
    assert!(!output.allows(4));
    assert!(OutputLimits::default().allows(usize::MAX));
    let server = built(
        Server::builder()
            .output_limits(output)
            .dispatch_limits(DispatchLimits::default().max_in_flight(2)),
    );
    assert_eq!(server.output_limits(), output);
    assert!(server.begin("list-panes", 1).is_ok());
    let Err(Error::Overloaded { command, in_flight }) = server.begin("list-panes", 2) else {
        panic!("two commands are under way");
    };
    assert_eq!((command, in_flight), ("list-panes", 2));
    assert!(built(Server::builder()).begin("list-panes", usize::MAX).is_ok());
    assert!(Server::builder()
        .output_limits(output)
        .dispatch_limits(DispatchLimits::default().max_in_flight(4))
        .debug_text()
        .ends_with(
            "output_limits: OutputLimits { max_stdout_bytes: Some(3) }, \
             dispatch_limits: DispatchLimits { max_in_flight: Some(4) }, .. }"
        ));
}

#[test]
fn options_stay_in_their_table_and_hide_their_values() {
    let session = one_session();
    let on_server = vec![OptionScope::Server];
    let on_session = vec![OptionScope::Session];
    let Err(Error::OptionScopeMismatch { name }) =
        session.set_option("buffer-limit", Some(&on_server), b"1".to_vec())
    else {
        panic!("a server option");
    };
    assert_eq!(name, "buffer-limit");
    assert!(session.unset_hook("pane-died", Some(&vec![OptionScope::Pane])).is_err());
    let set = session
        .set_option("status-left", Some(&on_session), b"secret".to_vec())
        .ok()
        .expect("a session option");
    assert!(set.arguments().iter().any(Argument::is_sensitive));
    let failed = refused(&set, b"secret is wrong");
    assert!(matches!(
        failed.require("set-option"),
        Err(Error::CommandFailed { stderr: None, .. })
    ));
}

#[test]
fn sessions_that_outlive_their_scope_are_reported() {
    let outcome: Result<u8, &str> = Err("operation");
    let settled = Server::settle_session(outcome, Ok(()));
    assert!(matches!(settled, Ok(Err("operation"))));
    let failure = Error::ServerGone { command: "kill-session" };
    let Err(Error::AfterEffect { operation, source }) = Server::settle_session(outcome, Err(failure))
    else {
        panic!("the session was created");
    };
    assert_eq!(operation, "with-session");
    assert!(matches!(*source, Error::ServerGone { .. }));
}

#[test]
fn releases_before_the_first_supported_one_are_refused() {
    assert!(Server::require_supported(&version(b"tmux 3.2a\n")).is_ok());
    assert!(Server::require_supported(&version(b"tmux master\n")).is_ok());
    assert!(Server::require_supported(&version(b"tmux 3.2\n")).is_err());
}

#[test]
fn options_without_a_value_are_left_out() {
    let answer = |name: &str, value: Option<&str>| OptionAnswer {
        name: name.to_owned(),
        value: value.map(TmuxText::from_text),
    };
    let kept = collect_options(&vec![
        answer("escape-time", Some("500")),
        answer("command-alias", None),
        answer("buffer-limit", Some("")),
    ]);
    let names: Vec<&str> = kept.iter().map(|option| option.name.as_str()).collect();
    assert_eq!(names, ["escape-time", "buffer-limit"]);
    assert_eq!(kept[0].value.as_bytes(), b"500");
}

#[test]
fn relations_without_values_satisfy_all_and_none() {
    let trees = Server::hierarchy(&sessions(&[&[]]), &windows(&[]), &panes(&[]));
    assert!(trees[0].windows.is_empty());
    let relation = libtmux::server::hierarchy::SessionTree::filter_fields().windows;
    let logs = || {
        libtmux::server::hierarchy::WindowTree::filter_fields().window.window_name.eq("logs")
    };
    assert!(relation.all(logs()).matches(&trees[0]));
    assert!(relation.none(logs()).matches(&trees[0]));
    assert!(!relation.any(logs()).matches(&trees[0]));
    assert!(relation.none(logs().not()).matches(&trees[0]));
}

// Sessions.

fn one_session() -> Session {
    sessions(&[&[]]).pop().expect("one fixture session")
}

#[test]
fn session_refresh_failure_after_rename_marks_the_completed_effect() {
    let mut session = one_session();
    let command = session.rename(b"renamed".to_vec());
    assert_eq!(words(&command), ["rename-session", "-t", "$1", "renamed"]);
    assert!(accepted(&command, b"").require("rename-session").is_ok());

    let error = session
        .settle_rename(Err(Error::Overloaded { command: "list-sessions", in_flight: 1 }))
        .err()
        .expect("refresh dispatch fails after rename succeeds");

    assert_eq!(error.kind(), ErrorKind::PartialEffect);
    assert!(
        matches!(
            error,
            Error::AfterEffect { operation: "rename-session", source }
                if source.kind() == ErrorKind::Refused && source.is_transient()
        ),
        "the refresh error remains available as the source",
    );
}

#[test]
fn successful_session_step_requires_an_active_window_postcondition() {
    let session = one_session();
    let command = session.next_window();
    assert!(matches!(
        Session::judge_step("next-window", &accepted(&command, b"")),
        Ok(Step::Moved)
    ));
    let found = version(b"tmux 3.7b\n");
    let listing = session.read_windows(&found, &accepted(&session.windows(&found), b""));

    let error = session
        .settle_step("next-window", listing)
        .err()
        .expect("an accepted step must leave an active window");

    assert!(matches!(
        error,
        Error::AfterEffect { operation: "next-window", source }
            if matches!(*source, Error::ObjectGone { .. })
    ));
}

#[test]
fn a_session_without_a_neighbour_is_no_failure() {
    let session = one_session();
    for (command, operation, said) in [
        (session.next_window(), "next-window", b"no next window\n".as_slice()),
        (session.previous_window(), "previous-window", b"no previous window\n"),
        (session.last_window(), "last-window", b"no last window"),
    ] {
        assert_eq!(words(&command), [operation, "-t", "$1"]);
        assert!(matches!(
            Session::judge_step(operation, &refused(&command, said)),
            Ok(Step::NoNeighbour)
        ));
        assert!(matches!(
            Session::judge_step(operation, &refused(&command, b"can't find session")),
            Err(Error::CommandFailed { .. })
        ));
    }
    let edges = windows(&[&[("window_id", b"@1")], &[("window_id", b"@2"), ("window_active", b"1")]]);
    let moved = session.settle_step("next-window", Ok(edges)).ok().expect("an active window");
    assert_eq!(moved.id().text(), "@2");
}

#[test]
fn refreshing_replaces_the_snapshot_or_keeps_it() {
    let mut session = one_session();
    let renamed = sessions(&[
        &[("session_id", b"$2"), ("session_name", b"other")],
        &[("session_id", b"$1"), ("session_name", b"renamed")],
    ]);
    assert!(session.refresh(&renamed).is_ok());
    assert_eq!(session.name().as_bytes(), b"renamed");
    let error = session
        .refresh(&sessions(&[&[("session_id", b"$3")]]))
        .err()
        .expect("the session is gone");
    assert_eq!(session.name().as_bytes(), b"renamed");
    match error {
        Error::ObjectGone { kind, id } => {
            assert_eq!(kind, ObjectKind::Session);
            assert_eq!(id, "$1");
        }
        _ => panic!("a session that is gone"),
    }
    assert!(session.refreshed(&renamed).is_ok());
}

#[test]
fn session_windows_are_found_by_name_activity_and_index() {
    let session = one_session();
    let edges = windows(&[
        &[("window_id", b"@1"), ("window_name", b"a")],
        &[("window_id", b"@2"), ("window_name", b"b"), ("window_active", b"1")],
        &[("window_id", b"@3"), ("window_name", b"b")],
    ]);
    assert_eq!(Session::window(&edges, b"b").expect("a window").id().text(), "@2");
    assert!(Session::window(&edges, b"c").is_none());
    assert_eq!(Session::active_window(&edges).expect("a window").id().text(), "@2");
    let found = version(b"tmux 3.7b\n");
    let at = words(&session.window_at(&found, -3));
    assert_eq!(&at[..4], ["list-windows", "-t", "$1", "-F"]);
    assert_eq!(&at[5..], ["-f", "#{==:#{window_index},-3}"]);
    let kept = Session::search_windows(&edges, &Window::filter_fields().window_name.eq("b"));
    let ids: Vec<String> = kept.iter().map(|window| window.id().text()).collect();
    assert_eq!(ids, ["@2", "@3"]);
    let none = Session::search_windows_or_empty(
        Err(Error::Timeout { command: "list-windows" }),
        &Window::filter_fields().window_name.eq("b"),
    );
    assert!(none.is_empty());
    let panes = words(&session.panes(&found));
    assert_eq!(&panes[..4], ["list-panes", "-s", "-t", "$1"]);
}

#[test]
fn session_targets_stand_behind_the_subcommand() {
    let session = one_session();
    assert_eq!(
        words(&session.cmd(Command::new("send-keys").text("x"))),
        ["send-keys", "-t", "$1", "x"]
    );
    assert_eq!(
        words(&session.format("#{session_name}")),
        ["display-message", "-t", "$1", "-p", "#{session_name}"]
    );
    assert_eq!(words(&session.display("hi")), ["display-message", "-t", "$1", "hi"]);
    assert_eq!(words(&session.kill()), ["kill-session", "-t", "$1"]);
    assert_eq!(words(&session.lock()), ["lock-session", "-t", "$1"]);
    assert_eq!(words(&session.detach_clients()), ["detach-client", "-s", "$1"]);
    let command = session.format("x");
    let value = Session::read_format(&accepted(&command, b"two\nlines\n"))
        .ok()
        .expect("a value");
    assert_eq!(value.as_bytes(), b"two\nlines");
}

#[test]
fn detaching_without_clients_succeeds() {
    let command = one_session().detach_clients();
    assert!(Session::judge_detach(&accepted(&command, b"")).is_ok());
    assert!(Session::judge_detach(&refused(&command, b"no current client\n")).is_ok());
    assert!(Session::judge_detach(&refused(&command, b"can't find session: $1\n")).is_err());
}

#[test]
fn scoped_windows_report_the_operation_before_the_cleanup() {
    let settle = Session::settle_scope::<u32, &str>;
    assert_eq!(settle(Ok(1), Ok(())), Ok(1));
    assert_eq!(settle(Ok(1), Err("cleanup")), Err("cleanup"));
    assert_eq!(settle(Err("operation"), Err("cleanup")), Err("operation"));
    assert_eq!(settle(Err("operation"), Ok(())), Err("operation"));
}

#[test]
fn pane_variables_are_pane_identities() {
    let pane = Session::from_env_value(Some(b"%12")).ok().expect("a pane");
    assert_eq!(pane.number(), 12);
    for (value, kind) in [
        (None, ServerConfigurationErrorKind::NotInsideTmux),
        (
            Some(b"12".as_slice()),
            ServerConfigurationErrorKind::MalformedTmuxVariable,
        ),
    ] {
        match Session::from_env_value(value) {
            Err(Error::InvalidServerConfiguration(found)) => assert_eq!(found, kind),
            _ => panic!("a configuration error"),
        }
    }
}

#[test]
fn windows_are_created_detached_unless_selected() {
    assert_eq!(
        words(&NewWindowOptions::unnamed().into_command("$1", "f")),
        ["new-window", "-P", "-F", "f", "-t", "$1", "-d"]
    );
    let options = NewWindowOptions::new(b"main".to_vec())
        .start_directory(b"/srv".to_vec())
        .index(-1)
        .placement(WindowPlacement::After)
        .environment(b"A".to_vec(), b"1".to_vec())
        .environment(b"B".to_vec(), b"2".to_vec())
        .replace_existing()
        .select()
        .command(b"htop".to_vec());
    assert_eq!(
        words(&options.into_command("$1", "f")),
        [
            "new-window", "-P", "-F", "f", "-t", "$1:-1", "-a", "-k", "-n", "main", "-c", "/srv",
            "-e", "A=1", "-e", "B=2", "htop",
        ]
    );
    let before = NewWindowOptions::unnamed().placement(WindowPlacement::Before);
    assert_eq!(
        words(&before.into_command("$1", "f")),
        ["new-window", "-P", "-F", "f", "-t", "$1", "-d", "-b"]
    );
}

#[test]
fn created_objects_are_read_from_what_tmux_prints() {
    let found = version(b"tmux 3.7b\n");
    let server = server();
    let command = server.new_session(&found, NewSessionOptions::new(b"work".to_vec()));
    let plan = FormatPlan::for_profile(ListProfile::Sessions, &found);
    assert_eq!(words(&command)[4], plan.template());
    let printed = row(&plan, &[("session_id", b"$9"), ("session_name", b"work")]);
    let created = server
        .read_new_session(&found, &accepted(&command, &printed))
        .ok()
        .expect("a session");
    assert_eq!(created.id().text(), "$9");
    assert!(matches!(
        server.read_new_session(&found, &refused(&command, b"duplicate session: work\n")),
        Err(Error::CommandFailed { command: "new-session", .. })
    ));
    for printed in [b"".as_slice(), b"$9%"] {
        let error = server
            .read_new_session(&found, &accepted(&command, printed))
            .err()
            .expect("not a session");
        assert_eq!(error.kind(), ErrorKind::PartialEffect);
    }

    let command = created.new_window(&found, NewWindowOptions::new(b"logs".to_vec()));
    let plan = window_projection_plan(&found).ok().expect("window plan");
    assert_eq!(words(&command)[3], plan.template());
    let printed = row(&plan, &[("session_id", b"$9"), ("window_id", b"@4")]);
    let window = created
        .read_new_window(&found, &accepted(&command, &printed))
        .ok()
        .expect("a window");
    assert_eq!(window.id().text(), "@4");
    assert!(matches!(
        created.read_new_window(&found, &accepted(&command, b"")),
        Err(Error::AfterEffect { operation: "new-window", .. })
    ));
}

// Invocations.

fn invocation(arguments: &[Argument]) -> Vec<String> {
    arguments
        .iter()
        .map(|argument| String::from_utf8_lossy(argument.as_bytes()).into_owned())
        .collect()
}

#[test]
fn invocations_name_their_server() {
    let plain = server();
    assert_eq!(
        invocation(&plain.cmd(&Command::new("list-keys").text("-T").text("root"))),
        ["-S", "/tmp/tmux-1000/default", "list-keys", "-T", "root"]
    );
    let configured = built(
        Server::builder()
            .socket_path(b"/s".to_vec())
            .config_file(b"/c".to_vec())
            .colors(88),
    );
    let written = configured.cmd(&Command::new("run-shell").sensitive_arg(b"x".to_vec()));
    assert_eq!(
        invocation(&written),
        ["-S", "/s", "-f", "/c", "-8", "run-shell", "x"]
    );
    assert!(written[6].is_sensitive());
    let colored = built(Server::builder().socket_path(b"/s".to_vec()).colors(256));
    assert_eq!(
        invocation(&colored.cmd(&Command::new("kill-server"))),
        ["-S", "/s", "-2", "kill-server"]
    );
}

#[test]
fn chains_are_parted_by_semicolons() {
    let plain = server();
    let chain = vec![
        Command::new("list-sessions"),
        Command::new("list-panes").text("-a"),
        Command::new("kill-server"),
    ];
    assert_eq!(
        invocation(&plain.chain(&chain)),
        [
            "-S", "/tmp/tmux-1000/default", "list-sessions", ";", "list-panes", "-a", ";",
            "kill-server",
        ]
    );
    assert_eq!(
        invocation(&plain.chain(&Vec::new())),
        ["-S", "/tmp/tmux-1000/default"]
    );
}

// Options, hooks and environments.

#[test]
fn option_commands_name_their_table() {
    let server = server();
    let session = one_session();
    assert_eq!(words(&server.get_option("a")), ["show-options", "-v", "-s", "a"]);
    assert_eq!(
        words(&server.get_global_window_option("a")),
        ["show-options", "-v", "-g", "-w", "a"]
    );
    assert_eq!(
        words(&server.set_global_option("a", b"v".to_vec())),
        ["set-option", "-g", "a", "v"]
    );
    assert_eq!(words(&server.unset_option("a")), ["set-option", "-s", "-u", "a"]);
    assert_eq!(
        words(&session.append_option("a", None, b"v".to_vec()).ok().expect("a session option")),
        ["set-option", "-t", "$1", "-a", "a", "v"]
    );
    assert_eq!(words(&session.option_names()), ["show-options", "-t", "$1"]);
}

#[test]
fn array_options_are_kept_in_the_table_of_their_scope() {
    let server = server();
    let on_server = vec![OptionScope::Server];
    let on_window = vec![OptionScope::Window, OptionScope::Pane];
    let on_session = vec![OptionScope::Session];
    let set = |scopes: Option<&Vec<OptionScope>>| {
        words(&server.set_array_option("command-alias", scopes, 10, b"v".to_vec()))
    };
    assert_eq!(
        set(Some(&on_server)),
        ["set-option", "-s", "command-alias[10]", "v"]
    );
    assert_eq!(
        set(Some(&on_window)),
        ["set-option", "-g", "-w", "command-alias[10]", "v"]
    );
    assert_eq!(
        set(Some(&on_session)),
        ["set-option", "-g", "command-alias[10]", "v"]
    );
    assert_eq!(set(None), ["set-option", "-g", "command-alias[10]", "v"]);
    assert_eq!(index_name("a", 0), "a[0]");
    assert_eq!(
        words(&server.array_entry("a", None, 3)),
        ["show-options", "-v", "-g", "a[3]"]
    );
    let listing = server.array_option("a", Some(&on_server));
    assert_eq!(words(&listing), ["show-options", "-s", "a"]);
    let printed = accepted(&listing, b"a[30] x\na[35] \"y z\"\na[05] x\nab[1] x\na x\n");
    assert_eq!(read_array_indices("a", &printed).ok().expect("a listing"), [30, 35]);
    assert!(read_array_indices("a", &refused(&listing, b"invalid option: a")).is_err());
    assert_eq!(parse_index("a", "a[4294967295]"), Some(u32::MAX));
    assert_eq!(parse_index("a", "a[4294967296]"), None);
    assert_eq!(parse_index("a", "a[]"), None);
    assert_eq!(
        words(&server.unset_array_option("a", None, 3)),
        ["set-option", "-g", "-u", "a[3]"]
    );
}

#[test]
fn options_without_a_value_print_nothing() {
    let command = server().get_option("a");
    let read = |stdout: &[u8]| {
        read_option("a", &accepted(&command, stdout))
            .ok()
            .expect("an accepted option")
            .map(|value| value.as_bytes().to_vec())
    };
    let unset = refused(&server().get_option("@a"), b"invalid option: @a");
    assert!(read_option("@a", &unset).ok().expect("an unset user option").is_none());
    assert!(read_option("a", &refused(&command, b"invalid option: a")).is_err());
    assert!(read_option("@a", &refused(&command, b"no server running on /tmp/a")).is_err());
    assert_eq!(read(b""), None);
    assert_eq!(read(b"\n"), Some(Vec::new()));
    assert_eq!(read(b"a b\n"), Some(b"a b".to_vec()));
    let names = read_option_names(&accepted(&command, b"status on\nmouse\nprefix C-b\n"))
        .ok()
        .expect("a listing");
    assert_eq!(names, ["status", "mouse", "prefix"]);
}

#[test]
fn whole_hooks_are_cleared_before_they_are_replaced() {
    let server = server();
    let hooks = vec![
        HookEntry { index: 0, command: TmuxText::from_text("first") },
        HookEntry { index: 5, command: TmuxText::from_text("second") },
    ];
    let replaced = server.write_hooks("after-new-window", &hooks, ReplaceMode::Replace);
    let replaced: Vec<Vec<String>> = replaced.iter().map(words).collect();
    assert_eq!(
        replaced,
        [
            vec!["set-hook", "-g", "-u", "after-new-window"],
            vec!["set-hook", "-g", "after-new-window[0]", "first"],
            vec!["set-hook", "-g", "after-new-window[5]", "second"],
        ]
    );
    let merged = one_session().write_hooks("after-new-window", &hooks, ReplaceMode::Merge);
    let merged: Vec<Vec<String>> = merged.iter().map(words).collect();
    assert_eq!(
        merged,
        [
            vec!["set-hook", "-t", "$1", "after-new-window[0]", "first"],
            vec!["set-hook", "-t", "$1", "after-new-window[5]", "second"],
        ]
    );
}

#[test]
fn environment_values_are_read_back_and_kept_out_of_summaries() {
    let command = server().set_environment("TOKEN", b"sentinel-token".to_vec());
    assert_eq!(
        words(&command),
        ["set-environment", "-g", "TOKEN", "sentinel-token"]
    );
    assert_eq!(command.summary().sensitive_argument_count(), 1);
    assert!(!command.summary().text().contains("sentinel-token"));

    assert!(matches!(
        parse_entry(b"TOKEN", b"TOKEN=a=b"),
        Some(EnvironmentEntry::Value(value)) if value.as_bytes() == b"a=b"
    ));
    assert!(matches!(
        parse_entry(b"TOKEN", b"-TOKEN"),
        Some(EnvironmentEntry::Removed)
    ));
    assert!(parse_entry(b"TOKEN", b"TOKENS=1").is_none());

    let show = server().environment("TOKEN");
    assert!(matches!(
        read_environment("TOKEN", &accepted(&show, b"TOKEN=v\n")),
        Ok(Some(EnvironmentEntry::Value(_)))
    ));
    assert!(matches!(
        read_environment("TOKEN", &refused(&show, b"unknown variable: TOKEN\n")),
        Ok(None)
    ));
    assert!(read_environment("TOKEN", &refused(&show, b"no server running on x")).is_err());
    assert_eq!(
        words(&server().hide_environment("A")),
        ["set-environment", "-g", "-r", "A"]
    );
}

#[test]
fn whole_environments_are_asked_for_name_by_name() {
    assert_eq!(words(&server().environment_all()), ["show-environment", "-g"]);
    assert_eq!(
        words(&one_session().environment_all()),
        ["show-environment", "-t", "$1"]
    );
    let command = server().environment_all();
    let names = read_environment_names(&accepted(
        &command,
        b"PATH=/bin\n-PAGER\nMOTD=first\nsecond line\nthird=line\nPATH=again\n",
    ))
    .ok()
    .expect("a listing");
    assert_eq!(names, ["MOTD", "PAGER", "PATH", "third"]);
    let answers = vec![
        Answer {
            name: "MOTD".to_owned(),
            entry: Some(EnvironmentEntry::Value(TmuxText::from_text("first"))),
        },
        Answer { name: "PAGER".to_owned(), entry: Some(EnvironmentEntry::Removed) },
        Answer { name: "third".to_owned(), entry: None },
    ];
    let held = collect_environment(&answers);
    let held: Vec<(&str, bool)> = held
        .iter()
        .map(|variable| {
            (variable.name.as_str(), matches!(variable.entry, EnvironmentEntry::Removed))
        })
        .collect();
    assert_eq!(held, [("MOTD", false), ("PAGER", true)]);
    assert!(read_environment_names(&refused(&command, b"no such session")).is_err());
}

// Buffers, channels, access and interaction.

#[test]
fn buffers_are_exact_bytes() {
    let server = server();
    let command = server.set_buffer(Some("b"), b"sentinel-data".to_vec());
    assert_eq!(words(&command), ["set-buffer", "-b", "b", "sentinel-data"]);
    assert_eq!(command.summary().sensitive_argument_count(), 1);
    let show = server.buffer("b");
    assert_eq!(
        Server::read_buffer(&accepted(&show, b"a\xff\n")).ok().expect("a buffer"),
        Some(b"a\xff\n".to_vec())
    );
    let absent = Server::read_buffer(&refused(&show, b"no buffer b"));
    assert_eq!(absent.ok().expect("an answer"), None);
    assert!(matches!(
        Server::read_buffer(&refused(&show, b"no server running on /tmp/a")),
        Err(Error::ServerGone { command: "show-buffer" })
    ));
    let names = server.buffer_names();
    assert_eq!(words(&names), ["list-buffers", "-F", "#{buffer_name}"]);
    let listed = Server::read_buffer_names(&accepted(&names, b"buffer0\nbuffer1\n"))
        .ok()
        .expect("a listing");
    assert_eq!(listed, ["buffer0", "buffer1"]);
    for message in ["refused\n", "error connecting to /tmp/a (No such file)\n"] {
        match Server::read_buffer_names(&refused(&names, message.as_bytes())) {
            Err(Error::CommandFailed { command, exit_code, stderr }) => {
                assert_eq!(command, "list-buffers");
                assert_eq!(exit_code, Some(1));
                assert_eq!(stderr.as_deref(), Some(message));
            }
            _ => panic!("a failed command"),
        }
    }
}

#[test]
fn answers_that_are_not_utf8_are_read_with_replacements() {
    let names = server().buffer_names();
    let listed = Server::read_buffer_names(&accepted(&names, b"a\xffb\n"))
        .ok()
        .expect("a listing");
    assert_eq!(listed, ["a\u{fffd}b"]);
}

#[test]
fn formats_are_expanded_on_panes_of_the_same_server() {
    let server = server();
    let pane = panes(&[&[("pane_id", b"%4")]]).pop().expect("one pane");
    let command = server.format(Some(&pane), "#{pane_id}").ok().expect("the same server");
    assert_eq!(words(&command), ["display-message", "-p", "-t", "%4", "#{pane_id}"]);
    let elsewhere = built(Server::builder().socket_name(b"other".to_vec()));
    let error = elsewhere
        .format(Some(&pane), "#{pane_id}")
        .err()
        .expect("another server");
    assert!(matches!(error, Error::ServerMismatch { command: "display-message" }));
    assert_eq!(error.kind(), ErrorKind::Invalid);
    let command = server.format(None, "#{version}").ok().expect("no pane");
    assert_eq!(words(&command), ["display-message", "-p", "#{version}"]);
    let value = Server::read_format(&accepted(&command, b"3.7b\n")).ok().expect("a value");
    assert_eq!(value.as_bytes(), b"3.7b");
}

#[test]
fn channels_stand_behind_the_end_of_flags() {
    let server = built(Server::builder().default_timeout(Timeout::from_secs(3)));
    assert_eq!(words(&server.signal_channel("-S")), ["wait-for", "-S", "--", "-S"]);
    assert_eq!(words(&server.lock_channel("c")), ["wait-for", "-L", "--", "c"]);
    assert_eq!(words(&server.unlock_channel("c")), ["wait-for", "-U", "--", "c"]);
    let (command, within) = server.wait_for_channel("c", Timeout::from_secs(9));
    assert_eq!(words(&command), ["wait-for", "--", "c"]);
    assert_eq!(within, Timeout::from_secs(3));
    let short = Timeout { seconds: 2, nanoseconds: 5 };
    assert_eq!(server.wait_for_channel("c", short).1, short);
}

#[test]
fn running_out_of_time_is_an_outcome() {
    assert!(matches!(Server::settle_wait(None), Ok(ChannelWait::TimedOut)));
    assert!(matches!(
        Server::settle_wait(Some(Ok(()))),
        Ok(ChannelWait::Signalled)
    ));
    assert!(matches!(
        Server::settle_wait(Some(Err(Error::Timeout { command: "wait-for" }))),
        Ok(ChannelWait::TimedOut)
    ));
    assert!(matches!(
        Server::settle_wait(Some(Err(Error::ServerGone { command: "wait-for" }))),
        Err(Error::ServerGone { .. })
    ));
}

#[test]
fn held_channels_report_the_operation_before_the_unlocking() {
    let gone = || Err(Error::ServerGone { command: "wait-for" });
    assert!(matches!(Server::settle_lock::<u32, &str>(Ok(1), Ok(())), Ok(1)));
    assert!(matches!(
        Server::settle_lock::<u32, &str>(Ok(1), gone()),
        Err(ScopeError::Cleanup { outcome: 1, .. })
    ));
    for unlocked in [Ok(()), gone()] {
        assert!(matches!(
            Server::settle_lock::<u32, &str>(Err("operation"), unlocked),
            Err(ScopeError::Operation("operation"))
        ));
    }
}

#[test]
fn access_rules_are_split_from_the_right() {
    let rules = parse_access_rules("alice (W)\nbob smith (R)\nmalformed\ncarol (X)\n");
    let read: Vec<(&str, AccessMode)> =
        rules.iter().map(|rule| (rule.user(), rule.mode())).collect();
    assert_eq!(
        read,
        [("alice", AccessMode::Write), ("bob smith", AccessMode::ReadOnly)]
    );
    let server = server();
    let found = version(b"tmux 3.3\n");
    let given = |command: Result<Command, Error>| command.ok().expect("the release has a list");
    assert_eq!(words(&given(server.access_rules(&found))), ["server-access", "-l"]);
    assert_eq!(
        words(&given(server.grant_access(&found, "bob", AccessMode::ReadOnly))),
        ["server-access", "-a", "-r", "bob"]
    );
    assert_eq!(
        words(&given(server.revoke_access(&found, "bob"))),
        ["server-access", "-d", "bob"]
    );
}

#[test]
fn prompt_histories_are_read_behind_their_header() {
    let command = server()
        .prompt_history(&version(b"tmux 3.3\n"), PromptKind::WindowTarget)
        .ok()
        .expect("the release keeps histories");
    assert_eq!(words(&command), ["show-prompt-history", "-T", "window-target"]);
    let stdout = b"History for window-target:\n\nfirst\n\nHistory for a walk\n";
    let entries = Server::read_prompt_history(&accepted(&command, stdout))
        .ok()
        .expect("a listing");
    let entries: Vec<&[u8]> = entries.iter().map(TmuxText::as_bytes).collect();
    assert_eq!(entries, [b"first".as_slice(), b"History for a walk"]);
}

#[test]
fn interactive_commands_are_aimed_at_clients_of_the_server() {
    let server = server();
    let client = client_on(b"/tmp/tmux-1000/default", b"/dev/pts/3");
    let items = vec![
        MenuItem { label: "A".to_owned(), key: "a".to_owned(), command: "kill-pane".to_owned() },
        MenuItem { label: "B".to_owned(), key: "b".to_owned(), command: "new-window".to_owned() },
    ];
    let menu = server.display_menu(Some(&client), "Title", &items).ok().expect("a menu");
    assert_eq!(
        words(&menu),
        [
            "display-menu", "-T", "Title", "-t", "/dev/pts/3", "A", "a", "kill-pane", "B", "b",
            "new-window",
        ]
    );
    let popup = server.display_popup(None, b"htop".to_vec()).ok().expect("a popup");
    assert_eq!(words(&popup), ["display-popup", "-E", "htop"]);
    let prompt = server
        .command_prompt(None, Some("name:"), b"rename-window '%%'".to_vec())
        .ok()
        .expect("a prompt");
    assert_eq!(words(&prompt), ["command-prompt", "-p", "name:", "rename-window '%%'"]);
    let chooser = server.open_chooser(Chooser::Customize, Some(&client)).ok().expect("a chooser");
    assert_eq!(words(&chooser), ["customize-mode", "-t", "/dev/pts/3"]);
    let finder = server.find_window(None, "log").ok().expect("a finder");
    assert_eq!(words(&finder), ["find-window", "log"]);
    let elsewhere = client_on(b"/tmp/other", b"/dev/pts/3");
    assert!(matches!(
        server.display_panes(Some(&elsewhere)),
        Err(Error::ServerMismatch { command: "display-panes" })
    ));
}

// Text helpers.

#[test]
fn output_is_trimmed_and_split_like_text() {
    assert_eq!(output::trim_end("said \t\r\n"), "said");
    assert_eq!(output::words("  4711\t17 \n"), ["4711", "17"]);
    assert_eq!(output::parse_u32(b"+7"), Some(7));
    assert_eq!(output::parse_u32(b"-7"), None);
    assert_eq!(output::parse_u32(b""), None);
    assert_eq!(output::parse_i64(b"-9223372036854775808"), Some(i64::MIN));
    assert_eq!(output::parse_i64(b"9223372036854775808"), None);
    assert_eq!(output::lines("a\r\nb\n\nc"), ["a", "b", "", "c"]);
}
