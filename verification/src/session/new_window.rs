//! Options for creating a window.

use vstd::prelude::*;
use vstd::string::*;
use vstd::utf8::*;

use crate::command;
use crate::command::Command;
use crate::decimal;
use crate::decimal::format_signed;
use crate::server;
use crate::server::lifecycle;
use crate::target;
use crate::text::copy_bytes;

verus! {

/// Where a window is inserted, relative to an index.
#[derive(Clone, Copy, Debug, PartialEq, Eq, Structural, Hash)]
pub enum WindowPlacement {
    /// In front of the index.
    Before,
    /// Behind the index.
    After,
}

/// A variable for the process that a window starts.
pub struct Variable {
    name: Vec<u8>,
    value: Vec<u8>,
}

/// A variable, in contracts.
#[verifier::ext_equal]
pub ghost struct VariableV {
    pub name: Seq<u8>,
    pub value: Seq<u8>,
}

impl Variable {
    /// The variable in contracts.
    pub closed spec fn view(&self) -> VariableV {
        VariableV { name: self.name@, value: self.value@ }
    }
}

/// The variables of a list, in contracts.
pub open spec fn variable_views(variables: Seq<Variable>) -> Seq<VariableV> {
    variables.map_values(|variable: Variable| variable@)
}

/// Options for creating a window in a session.
pub struct NewWindowOptions {
    name: Option<Vec<u8>>,
    start_directory: Option<Vec<u8>>,
    command: Option<Vec<u8>>,
    index: Option<i32>,
    placement: Option<WindowPlacement>,
    environment: Vec<Variable>,
    replace_existing: bool,
    select: bool,
}

/// Options for creating a window, in contracts.
#[verifier::ext_equal]
pub ghost struct WindowOptionsV {
    pub name: Option<Seq<u8>>,
    pub start_directory: Option<Seq<u8>>,
    pub command: Option<Seq<u8>>,
    pub index: Option<i32>,
    pub placement: Option<WindowPlacement>,
    pub environment: Seq<VariableV>,
    pub replace_existing: bool,
    pub select: bool,
}

/// Options that nothing was said to.
pub open spec fn unnamed_options() -> WindowOptionsV {
    WindowOptionsV {
        name: None,
        start_directory: None,
        command: None,
        index: None,
        placement: None,
        environment: Seq::empty(),
        replace_existing: false,
        select: false,
    }
}

/// The target of a new window: a session, and an index of it if there is one.
pub open spec fn window_target(session: Seq<char>, index: Option<i32>) -> Seq<char> {
    match index {
        Some(index) => session + ":"@ + decimal::signed_decimal(index as int),
        None => session,
    }
}

/// A command with the variables of a window.
pub open spec fn with_variables(
    command: command::CommandV,
    variables: Seq<VariableV>,
) -> command::CommandV
    decreases variables.len(),
{
    if variables.len() == 0 {
        command
    } else {
        with_variables(command, variables.drop_last()).with_text("-e"@).with(
            variables.last().name + seq![61u8] + variables.last().value,
        )
    }
}

/// A command with a flag, if it is set.
pub open spec fn with_mark(command: command::CommandV, flag: Seq<char>, set: bool) -> command::CommandV {
    if set {
        command.with_text(flag)
    } else {
        command
    }
}

/// The command that creates a window. The flags stand in front of the shell
/// command, because tmux stops reading flags at the first positional.
pub open spec fn creation(
    options: WindowOptionsV,
    session: Seq<char>,
    format: Seq<char>,
) -> command::CommandV {
    let start = command::called("new-window"@).with_text("-P"@).with_text("-F"@).with_text(
        format,
    ).with_text("-t"@).with_text(window_target(session, options.index));
    let detached = with_mark(start, "-d"@, !options.select);
    let placed = match options.placement {
        Some(WindowPlacement::Before) => detached.with_text("-b"@),
        Some(WindowPlacement::After) => detached.with_text("-a"@),
        None => detached,
    };
    let replacing = with_mark(placed, "-k"@, options.replace_existing);
    let named = lifecycle::with_flag(replacing, "-n"@, options.name);
    let directed = lifecycle::with_flag(named, "-c"@, options.start_directory);
    let equipped = with_variables(directed, options.environment);
    match options.command {
        Some(command) => equipped.with(command),
        None => equipped,
    }
}

impl NewWindowOptions {
    /// The options in contracts.
    pub closed spec fn view(&self) -> WindowOptionsV {
        WindowOptionsV {
            name: server::maybe_bytes(self.name),
            start_directory: server::maybe_bytes(self.start_directory),
            command: server::maybe_bytes(self.command),
            index: self.index,
            placement: self.placement,
            environment: variable_views(self.environment@),
            replace_existing: self.replace_existing,
            select: self.select,
        }
    }

    /// Describe a window with no name, letting tmux choose one.
    pub fn unnamed() -> (options: NewWindowOptions)
        ensures
            options@ == unnamed_options(),
    {
        let options = NewWindowOptions {
            name: None,
            start_directory: None,
            command: None,
            index: None,
            placement: None,
            environment: Vec::new(),
            replace_existing: false,
            select: false,
        };
        assert(variable_views(options.environment@) =~= Seq::empty());
        options
    }

    /// Describe a window with the given name.
    pub fn new(name: Vec<u8>) -> (options: NewWindowOptions)
        ensures
            options@ == (WindowOptionsV { name: Some(name@), ..unnamed_options() }),
    {
        let mut options = NewWindowOptions::unnamed();
        options.name = Some(name);
        options
    }

    /// Set the window's working directory.
    pub fn start_directory(self, directory: Vec<u8>) -> (options: NewWindowOptions)
        ensures
            options@ == (WindowOptionsV { start_directory: Some(directory@), ..self@ }),
    {
        let mut options = self;
        options.start_directory = Some(directory);
        options
    }

    /// Run a command instead of the default shell.
    pub fn command(self, command: Vec<u8>) -> (options: NewWindowOptions)
        ensures
            options@ == (WindowOptionsV { command: Some(command@), ..self@ }),
    {
        let mut options = self;
        options.command = Some(command);
        options
    }

    /// Place the window at a window index rather than the first free one.
    pub fn index(self, index: i32) -> (options: NewWindowOptions)
        ensures
            options@ == (WindowOptionsV { index: Some(index), ..self@ }),
    {
        let mut options = self;
        options.index = Some(index);
        options
    }

    /// Insert relative to the index rather than at it.
    pub fn placement(self, placement: WindowPlacement) -> (options: NewWindowOptions)
        ensures
            options@ == (WindowOptionsV { placement: Some(placement), ..self@ }),
    {
        let mut options = self;
        options.placement = Some(placement);
        options
    }

    /// Set an environment variable for the process the new window starts.
    pub fn environment(self, name: Vec<u8>, value: Vec<u8>) -> (options: NewWindowOptions)
        ensures
            options@ == (WindowOptionsV {
                environment: self@.environment.push(VariableV { name: name@, value: value@ }),
                ..self@
            }),
    {
        let mut options = self;
        let ghost before = variable_views(options.environment@);
        options.environment.push(Variable { name, value });
        assert(variable_views(options.environment@) =~= before.push(
            VariableV { name: name@, value: value@ },
        ));
        options
    }

    /// Replace whatever already occupies the target index.
    pub fn replace_existing(self) -> (options: NewWindowOptions)
        ensures
            options@ == (WindowOptionsV { replace_existing: true, ..self@ }),
    {
        let mut options = self;
        options.replace_existing = true;
        options
    }

    /// Make the new window active in its session.
    pub fn select(self) -> (options: NewWindowOptions)
        ensures
            options@ == (WindowOptionsV { select: true, ..self@ }),
    {
        let mut options = self;
        options.select = true;
        options
    }

    /// Lower these options into a `new-window` command for one session.
    pub fn into_command(self, session: &str, print_format: &str) -> (lowered: Command)
        ensures
            lowered@ == creation(self@, session@, print_format@),
            lowered@.arguments[2].bytes == encode_utf8(print_format@),
            lowered@.arguments[4].bytes == encode_utf8(
                match self@.index {
                    Some(index) => session@ + ":"@ + decimal::signed_decimal(index as int),
                    None => session@,
                },
            ),
            self@.command matches Some(shell) ==> lowered@.arguments.last().bytes == shell,
    {
        let ghost options = self@;
        proof {
            let flags = WindowOptionsV { environment: Seq::empty(), command: None, ..options };
            let held = creation(options, session@, print_format@).arguments;
            law_window_flags_reach_the_command(flags, session@, print_format@);
            law_window_variables_stand_behind_the_flags(options, session@, print_format@);
            let start = creation(flags, session@, print_format@).arguments;
            assert(held[2] == held.take(start.len() as int)[2]);
            assert(held[4] == held.take(start.len() as int)[4]);
        }
        let mut target = session.to_owned();
        if let Some(index) = self.index {
            target.append(":");
            target.append(format_signed(index as i128).as_str());
        }
        let mut command = Command::new("new-window").text("-P").text("-F").text(
            print_format,
        ).text("-t").text(target.as_str());
        if !self.select {
            command = command.text("-d");
        }
        match self.placement {
            Some(WindowPlacement::Before) => {
                command = command.text("-b");
            },
            Some(WindowPlacement::After) => {
                command = command.text("-a");
            },
            None => {},
        }
        if self.replace_existing {
            command = command.text("-k");
        }
        if let Some(name) = self.name {
            command = command.text("-n").arg(name);
        }
        if let Some(directory) = self.start_directory {
            command = command.text("-c").arg(directory);
        }
        let ghost start = command@;
        let environment = self.environment;
        let ghost views = variable_views(environment@);
        let mut index: usize = 0;
        assert(views.take(0) =~= Seq::empty());
        while index < environment.len()
            invariant
                index <= environment@.len(),
                views == variable_views(environment@),
                command@ == with_variables(start, views.take(index as int)),
            decreases environment@.len() - index,
        {
            let ghost longer = views.take(index + 1);
            assert(longer.drop_last() =~= views.take(index as int));
            let variable = &environment[index];
            assert(longer.last() == variable@);
            let mut assignment = copy_bytes(variable.name.as_slice());
            assignment.push(61);
            let mut value = copy_bytes(variable.value.as_slice());
            assignment.append(&mut value);
            assert(assignment@ =~= variable@.name + seq![61u8] + variable@.value);
            command = command.text("-e").arg(assignment);
            index += 1;
        }
        assert(views.take(environment@.len() as int) =~= views);
        match self.command {
            Some(shell_command) => command.arg(shell_command),
            None => command,
        }
    }
}

/// The marks and flags of a window reach the command whatever the other options
/// are, and where one is not set it adds nothing. The target is the session,
/// and behind a colon the index if there is one. Behind it stand the marks, the
/// name behind `-n` and the directory behind `-c`.
#[verifier::spinoff_prover]
pub proof fn law_window_flags_reach_the_command(
    options: WindowOptionsV,
    session: Seq<char>,
    format: Seq<char>,
)
    requires
        options.environment.len() == 0,
        options.command is None,
    ensures
        ({
            let command = creation(options, session, format);
            let held = command.arguments;
            let detached: int = if options.select { 0 } else { 1 };
            let placed: int = if options.placement is Some { 1 } else { 0 };
            let replacing: int = if options.replace_existing { 1 } else { 0 };
            let named: int = if options.name is Some { 2 } else { 0 };
            let directed: int = if options.start_directory is Some { 2 } else { 0 };
            let marks = 5 + detached + placed + replacing;
            &&& command.name == "new-window"@
            &&& held.len() == marks + named + directed
            &&& held[0].bytes == encode_utf8("-P"@)
            &&& held[1].bytes == encode_utf8("-F"@)
            &&& held[2].bytes == encode_utf8(format)
            &&& held[3].bytes == encode_utf8("-t"@)
            &&& options.index is None ==> held[4].bytes == encode_utf8(session)
            &&& options.index matches Some(index) ==> held[4].bytes == encode_utf8(
                session + ":"@ + decimal::signed_decimal(index as int),
            )
            &&& !options.select ==> held[5].bytes == encode_utf8("-d"@)
            &&& options.placement == Some(WindowPlacement::Before) ==> held[5 + detached].bytes
                == encode_utf8("-b"@)
            &&& options.placement == Some(WindowPlacement::After) ==> held[5 + detached].bytes
                == encode_utf8("-a"@)
            &&& options.replace_existing ==> held[5 + detached + placed].bytes == encode_utf8(
                "-k"@,
            )
            &&& options.name matches Some(name) ==> held[marks].bytes == encode_utf8("-n"@)
                && held[marks + 1].bytes == name
            &&& options.start_directory matches Some(path) ==> held[marks + named].bytes
                == encode_utf8("-c"@) && held[marks + named + 1].bytes == path
            &&& forall|i: int| 0 <= i < held.len() ==> !(#[trigger] held[i]).sensitive
        }),
{
    let start = command::called("new-window"@).with_text("-P"@).with_text("-F"@).with_text(
        format,
    ).with_text("-t"@).with_text(window_target(session, options.index));
    let detached = with_mark(start, "-d"@, !options.select);
    let placed = match options.placement {
        Some(WindowPlacement::Before) => detached.with_text("-b"@),
        Some(WindowPlacement::After) => detached.with_text("-a"@),
        None => detached,
    };
    let replacing = with_mark(placed, "-k"@, options.replace_existing);
    let named = lifecycle::with_flag(replacing, "-n"@, options.name);
    let directed = lifecycle::with_flag(named, "-c"@, options.start_directory);
    assert(creation(options, session, format) == directed);
    assert(start.arguments.len() == 5);
    lemma_kept(start.arguments, detached.arguments);
    lemma_kept(detached.arguments, placed.arguments);
    lemma_kept(placed.arguments, replacing.arguments);
    lemma_kept(replacing.arguments, named.arguments);
    lemma_kept(named.arguments, directed.arguments);
}

/// Arguments that others are added behind stay where they are.
proof fn lemma_kept(shorter: Seq<command::ArgumentV>, longer: Seq<command::ArgumentV>)
    requires
        shorter.is_prefix_of(longer),
    ensures
        forall|i: int| 0 <= i < shorter.len() ==> #[trigger] longer[i] == shorter[i],
{
    assert forall|i: int| 0 <= i < shorter.len() implies #[trigger] longer[i] == shorter[i] by {
        assert(longer.subrange(0, shorter.len() as int)[i] == longer[i]);
    }
}

/// Behind its marks and flags, a command holds every variable of the window
/// behind an `-e` of its own, in their order, and the shell command last.
pub proof fn law_window_variables_stand_behind_the_flags(
    options: WindowOptionsV,
    session: Seq<char>,
    format: Seq<char>,
)
    ensures
        ({
            let flags = creation(
                WindowOptionsV { environment: Seq::empty(), command: None, ..options },
                session,
                format,
            );
            let command = creation(options, session, format);
            let held = command.arguments;
            let start = flags.arguments.len() as int;
            let end = start + 2 * options.environment.len();
            &&& command.name == flags.name
            &&& held.len() == end + if options.command is Some { 1int } else { 0 }
            &&& held.take(start) == flags.arguments
            &&& forall|i: int|
                0 <= i < options.environment.len() ==> held.skip(start + 2 * i).take(2) == seq![
                    command::ArgumentV { bytes: encode_utf8("-e"@), sensitive: false },
                    command::ArgumentV {
                        bytes: (#[trigger] options.environment[i]).name + seq![61u8]
                            + options.environment[i].value,
                        sensitive: false,
                    },
                ]
            &&& options.command matches Some(shell) ==> held.last() == (command::ArgumentV {
                bytes: shell,
                sensitive: false,
            })
        }),
{
    let plain = WindowOptionsV { environment: Seq::empty(), command: None, ..options };
    let flags = creation(plain, session, format);
    law_window_flags_reach_the_command(plain, session, format);
    lemma_variables_stand_in_order(flags, options.environment);
    let equipped = with_variables(flags, options.environment);
    let held = creation(options, session, format).arguments;
    let start = flags.arguments.len() as int;
    assert(held == match options.command {
        Some(shell) => equipped.with(shell).arguments,
        None => equipped.arguments,
    });
    assert forall|i: int| 0 <= i < equipped.arguments.len() implies #[trigger] held[i]
        == equipped.arguments[i] by {}
    assert(held.take(start) =~= equipped.arguments.take(start));
    assert forall|i: int| 0 <= i < options.environment.len() implies held.skip(start + 2 * i).take(
        2,
    ) == seq![
        command::ArgumentV { bytes: encode_utf8("-e"@), sensitive: false },
        command::ArgumentV {
            bytes: (#[trigger] options.environment[i]).name + seq![61u8]
                + options.environment[i].value,
            sensitive: false,
        },
    ] by {
        let pair = equipped.arguments.skip(start + 2 * i).take(2);
        assert(held.skip(start + 2 * i).take(2) =~= pair);
    }
}

proof fn lemma_variables_stand_in_order(command: command::CommandV, variables: Seq<VariableV>)
    requires
        forall|i: int| 0 <= i < command.arguments.len() ==> !(#[trigger] command.arguments[i]).sensitive,
    ensures
        ({
            let held = with_variables(command, variables).arguments;
            let start = command.arguments.len() as int;
            &&& with_variables(command, variables).name == command.name
            &&& held.len() == start + 2 * variables.len()
            &&& held.take(start) == command.arguments
            &&& forall|i: int|
                0 <= i < variables.len() ==> held.skip(start + 2 * i).take(2) == seq![
                    command::ArgumentV { bytes: encode_utf8("-e"@), sensitive: false },
                    command::ArgumentV {
                        bytes: (#[trigger] variables[i]).name + seq![61u8] + variables[i].value,
                        sensitive: false,
                    },
                ]
            &&& forall|i: int| 0 <= i < held.len() ==> !(#[trigger] held[i]).sensitive
        }),
    decreases variables.len(),
{
    let held = with_variables(command, variables).arguments;
    let start = command.arguments.len() as int;
    if variables.len() > 0 {
        let head = variables.drop_last();
        lemma_variables_stand_in_order(command, head);
        let earlier = with_variables(command, head).arguments;
        assert forall|i: int| 0 <= i < earlier.len() implies #[trigger] held[i] == earlier[i] by {}
        assert(held.take(start) =~= earlier.take(start));
        assert forall|i: int| 0 <= i < variables.len() implies held.skip(start + 2 * i).take(2)
            == seq![
            command::ArgumentV { bytes: encode_utf8("-e"@), sensitive: false },
            command::ArgumentV {
                bytes: (#[trigger] variables[i]).name + seq![61u8] + variables[i].value,
                sensitive: false,
            },
        ] by {
            if i < head.len() {
                assert(head[i] == variables[i]);
                assert(held.skip(start + 2 * i).take(2) =~= earlier.skip(start + 2 * i).take(2));
            }
        }
        assert forall|i: int| 0 <= i < held.len() implies !(#[trigger] held[i]).sensitive by {
            if i < earlier.len() {
                assert(!earlier[i].sensitive);
            }
        }
    } else {
        assert(held.take(start) =~= command.arguments);
    }
}

/// Options that nothing was said to leave everything to tmux.
pub proof fn law_windows_start_without_options()
    ensures
        ({
            let options = unnamed_options();
            &&& options.name is None && options.start_directory is None && options.command is None
                && options.index is None && options.placement is None
            &&& options.environment.len() == 0
            &&& !options.replace_existing && !options.select
        }),
{
}

} // verus!
