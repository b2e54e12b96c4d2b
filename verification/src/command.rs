//! Commands for tmux, and what tmux answers to them.

use vstd::prelude::*;
use vstd::string::*;
use vstd::utf8::*;

use crate::decimal;
use crate::decimal::format_unsigned;
use crate::text;
use crate::text::copy_bytes;
use crate::text::render_struct;

verus! {

/// An argument of a command.
pub struct Argument {
    bytes: Vec<u8>,
    sensitive: bool,
}

/// An argument of a command, in contracts.
#[verifier::ext_equal]
pub ghost struct ArgumentV {
    pub bytes: Seq<u8>,
    pub sensitive: bool,
}

impl Argument {
    /// The argument in contracts.
    pub closed spec fn view(&self) -> ArgumentV {
        ArgumentV { bytes: self.bytes@, sensitive: self.sensitive }
    }

    /// An argument that diagnostics may show.
    pub fn plain(bytes: Vec<u8>) -> (argument: Argument)
        ensures
            argument@ == (ArgumentV { bytes: bytes@, sensitive: false }),
    {
        Argument { bytes, sensitive: false }
    }

    /// Copy the argument.
    pub fn copy(&self) -> (copy: Argument)
        ensures
            copy@ == self@,
    {
        Argument { bytes: copy_bytes(self.bytes.as_slice()), sensitive: self.sensitive }
    }

    /// The argument's bytes, as tmux gets them.
    pub fn as_bytes(&self) -> (bytes: &[u8])
        ensures
            bytes@ == self@.bytes,
    {
        self.bytes.as_slice()
    }

    /// Report whether the argument is kept out of diagnostics.
    pub fn is_sensitive(&self) -> (sensitive: bool)
        ensures
            sensitive == self@.sensitive,
    {
        self.sensitive
    }
}

/// One logical tmux command: a subcommand and its arguments.
pub struct Command {
    name: &'static str,
    arguments: Vec<Argument>,
}

/// One logical tmux command, in contracts.
#[verifier::ext_equal]
pub ghost struct CommandV {
    pub name: Seq<char>,
    pub arguments: Seq<ArgumentV>,
}

/// A command without arguments.
pub open spec fn called(name: Seq<char>) -> CommandV {
    CommandV { name, arguments: Seq::empty() }
}

impl CommandV {
    /// The command with one more argument.
    pub open spec fn with(self, bytes: Seq<u8>) -> CommandV {
        CommandV {
            arguments: self.arguments.push(ArgumentV { bytes, sensitive: false }),
            ..self
        }
    }

    /// The command with one more argument, written as text.
    pub open spec fn with_text(self, text: Seq<char>) -> CommandV {
        self.with(encode_utf8(text))
    }

    /// The command with one more argument that diagnostics do not show.
    pub open spec fn with_secret(self, bytes: Seq<u8>) -> CommandV {
        CommandV {
            arguments: self.arguments.push(ArgumentV { bytes, sensitive: true }),
            ..self
        }
    }

    /// The command on a target. The target stands in front of the arguments,
    /// because tmux stops reading flags at the first positional.
    pub open spec fn aimed(self, target: Seq<char>) -> CommandV {
        CommandV {
            arguments: called(self.name).with_text("-t"@).with_text(target).arguments
                + self.arguments,
            ..self
        }
    }
}

/// The arguments of a list, in contracts.
pub open spec fn argument_views(arguments: Seq<Argument>) -> Seq<ArgumentV> {
    arguments.map_values(|argument: Argument| argument@)
}

/// How many arguments are kept out of diagnostics.
pub open spec fn secrets(arguments: Seq<ArgumentV>) -> nat
    decreases arguments.len(),
{
    if arguments.len() == 0 {
        0
    } else {
        secrets(arguments.drop_last()) + (if arguments.last().sensitive {
            1nat
        } else {
            0
        })
    }
}

/// The bytes of a text.
pub fn text_bytes(text: &str) -> (bytes: Vec<u8>)
    ensures
        bytes@ == encode_utf8(text@),
{
    copy_bytes(text.as_bytes())
}

impl Command {
    /// The command in contracts.
    pub closed spec fn view(&self) -> CommandV {
        CommandV { name: self.name@, arguments: argument_views(self.arguments@) }
    }

    /// Start a command without arguments.
    pub fn new(name: &'static str) -> (command: Command)
        ensures
            command@ == called(name@),
    {
        let command = Command { name, arguments: Vec::new() };
        assert(argument_views(command.arguments@) =~= Seq::empty());
        command
    }

    /// The subcommand.
    pub fn name(&self) -> (name: &'static str)
        ensures
            name@ == self@.name,
    {
        self.name
    }

    /// The arguments, in order.
    pub fn arguments(&self) -> (arguments: &Vec<Argument>)
        ensures
            argument_views(arguments@) == self@.arguments,
    {
        &self.arguments
    }

    /// Add an argument.
    pub fn arg(self, bytes: Vec<u8>) -> (command: Command)
        ensures
            command@ == self@.with(bytes@),
    {
        let mut command = self;
        let ghost before = argument_views(command.arguments@);
        command.arguments.push(Argument { bytes, sensitive: false });
        assert(argument_views(command.arguments@) =~= before.push(
            ArgumentV { bytes: bytes@, sensitive: false },
        ));
        command
    }

    /// Add an argument that is written as text.
    pub fn text(self, text: &str) -> (command: Command)
        ensures
            command@ == self@.with_text(text@),
    {
        self.arg(text_bytes(text))
    }

    /// Add an argument that diagnostics do not show.
    pub fn sensitive_arg(self, bytes: Vec<u8>) -> (command: Command)
        ensures
            command@ == self@.with_secret(bytes@),
    {
        let mut command = self;
        let ghost before = argument_views(command.arguments@);
        command.arguments.push(Argument { bytes, sensitive: true });
        assert(argument_views(command.arguments@) =~= before.push(
            ArgumentV { bytes: bytes@, sensitive: true },
        ));
        command
    }

    /// Aim the command at a target.
    pub fn targeting(self, target: &str) -> (command: Command)
        ensures
            command@ == self@.aimed(target@),
    {
        let Command { name, arguments } = self;
        let mut aimed = Command::new(name).text("-t").text(target);
        let ghost flags = aimed@.arguments;
        let mut arguments = arguments;
        let ghost tail = argument_views(arguments@);
        aimed.arguments.append(&mut arguments);
        assert(argument_views(aimed.arguments@) =~= flags + tail);
        aimed
    }

    /// What diagnostics say of the command.
    pub fn summary(&self) -> (summary: CommandSummary)
        ensures
            summary@ == summarized(self@),
    {
        let ghost views = argument_views(self.arguments@);
        let mut sensitive_arguments: usize = 0;
        let mut index: usize = 0;
        assert(views.take(0) =~= Seq::empty());
        while index < self.arguments.len()
            invariant
                index <= self.arguments@.len(),
                views == argument_views(self.arguments@),
                sensitive_arguments <= index,
                sensitive_arguments == secrets(views.take(index as int)),
            decreases self.arguments@.len() - index,
        {
            let ghost longer = views.take(index + 1);
            assert(longer.drop_last() =~= views.take(index as int));
            assert(longer.last() == self.arguments@[index as int]@);
            if self.arguments[index].sensitive {
                sensitive_arguments += 1;
            }
            index += 1;
        }
        assert(views.take(views.len() as int) =~= views);
        CommandSummary { name: self.name, arguments: self.arguments.len(), sensitive_arguments }
    }
}

/// What diagnostics say of a command: none of its arguments.
#[derive(Clone, Copy, Debug)]
pub struct CommandSummary {
    name: &'static str,
    arguments: usize,
    sensitive_arguments: usize,
}

/// What diagnostics say of a command, in contracts.
#[verifier::ext_equal]
pub ghost struct SummaryV {
    pub name: Seq<char>,
    pub arguments: nat,
    pub sensitive_arguments: nat,
}

/// What diagnostics say of a command, in contracts.
pub open spec fn summarized(command: CommandV) -> SummaryV {
    SummaryV {
        name: command.name,
        arguments: command.arguments.len(),
        sensitive_arguments: secrets(command.arguments),
    }
}

/// The rendering of a summary.
pub open spec fn summary_rendering(summary: SummaryV) -> Seq<char> {
    text::struct_rendering(
        summary.name,
        seq![
            ("arguments"@, decimal::decimal(summary.arguments)),
            ("sensitive"@, decimal::decimal(summary.sensitive_arguments)),
        ],
    )
}

impl CommandSummary {
    /// The summary in contracts.
    pub closed spec fn view(&self) -> SummaryV {
        SummaryV {
            name: self.name@,
            arguments: self.arguments as nat,
            sensitive_arguments: self.sensitive_arguments as nat,
        }
    }

    /// The subcommand.
    pub fn name(&self) -> (name: &'static str)
        ensures
            name@ == self@.name,
    {
        self.name
    }

    /// How many arguments the command has.
    pub fn argument_count(&self) -> (count: usize)
        ensures
            count == self@.arguments,
    {
        self.arguments
    }

    /// How many arguments the command keeps out of diagnostics.
    pub fn sensitive_argument_count(&self) -> (count: usize)
        ensures
            count == self@.sensitive_arguments,
    {
        self.sensitive_arguments
    }

    /// Render the summary.
    pub fn text(&self) -> (rendering: String)
        ensures
            rendering@ == summary_rendering(self@),
    {
        let mut members: Vec<(&'static str, String)> = Vec::new();
        members.push(("arguments", format_unsigned(self.arguments as u128)));
        members.push(("sensitive", format_unsigned(self.sensitive_arguments as u128)));
        assert(text::member_views(members@) =~= seq![
            ("arguments"@, decimal::decimal(self@.arguments)),
            ("sensitive"@, decimal::decimal(self@.sensitive_arguments)),
        ]);
        render_struct(self.name, &members)
    }
}

/// The summaries of commands that differ in the bytes of their arguments only
/// are the same.
pub proof fn law_summaries_hide_arguments(left: CommandV, right: CommandV)
    requires
        left.name == right.name,
        left.arguments.len() == right.arguments.len(),
        forall|i: int|
            0 <= i < left.arguments.len() ==> (#[trigger] left.arguments[i]).sensitive
                == right.arguments[i].sensitive,
    ensures
        summarized(left) == summarized(right),
{
    lemma_secrets_depend_on_marks(left.arguments, right.arguments);
}

proof fn lemma_secrets_depend_on_marks(left: Seq<ArgumentV>, right: Seq<ArgumentV>)
    requires
        left.len() == right.len(),
        forall|i: int| 0 <= i < left.len() ==> (#[trigger] left[i]).sensitive == right[i].sensitive,
    ensures
        secrets(left) == secrets(right),
    decreases left.len(),
{
    if left.len() > 0 {
        assert forall|i: int| 0 <= i < left.drop_last().len() implies (
        #[trigger] left.drop_last()[i]).sensitive == right.drop_last()[i].sensitive by {
            assert(left.drop_last()[i] == left[i]);
        }
        lemma_secrets_depend_on_marks(left.drop_last(), right.drop_last());
        assert(left[left.len() - 1].sensitive == right[left.len() - 1].sensitive);
    }
}

/// What tmux answered to a command.
pub struct CommandResult {
    summary: CommandSummary,
    exit_code: Option<i32>,
    stdout: Vec<u8>,
    stderr: Vec<u8>,
}

/// What tmux answered to a command, in contracts.
#[verifier::ext_equal]
pub ghost struct ResultV {
    pub summary: SummaryV,
    pub exit_code: Option<i32>,
    pub stdout: Seq<u8>,
    pub stderr: Seq<u8>,
}

impl ResultV {
    /// Whether tmux accepted the command.
    pub open spec fn accepted(self) -> bool {
        self.exit_code == Some(0i32)
    }
}

impl CommandResult {
    /// The answer in contracts.
    pub closed spec fn view(&self) -> ResultV {
        ResultV {
            summary: self.summary@,
            exit_code: self.exit_code,
            stdout: self.stdout@,
            stderr: self.stderr@,
        }
    }

    /// Keep an answer. A process that was stopped has no exit code.
    pub fn new(
        summary: CommandSummary,
        exit_code: Option<i32>,
        stdout: Vec<u8>,
        stderr: Vec<u8>,
    ) -> (result: CommandResult)
        ensures
            result@ == (ResultV {
                summary: summary@,
                exit_code,
                stdout: stdout@,
                stderr: stderr@,
            }),
    {
        CommandResult { summary, exit_code, stdout, stderr }
    }

    /// What diagnostics say of the command.
    pub fn summary(&self) -> (summary: &CommandSummary)
        ensures
            summary@ == self@.summary,
    {
        &self.summary
    }

    /// Report whether tmux accepted the command.
    pub fn success(&self) -> (success: bool)
        ensures
            success == self@.accepted(),
    {
        match self.exit_code {
            Some(code) => code == 0,
            None => false,
        }
    }

    /// The exit code, unless the process was stopped.
    pub fn exit_code(&self) -> (code: Option<i32>)
        ensures
            code == self@.exit_code,
    {
        self.exit_code
    }

    /// The exact output.
    pub fn stdout(&self) -> (bytes: &[u8])
        ensures
            bytes@ == self@.stdout,
    {
        self.stdout.as_slice()
    }

    /// The exact diagnostics.
    pub fn stderr(&self) -> (bytes: &[u8])
        ensures
            bytes@ == self@.stderr,
    {
        self.stderr.as_slice()
    }
}

/// An argument is added behind the others, and only a sensitive one is counted
/// as sensitive.
pub proof fn law_arguments_are_added_behind(command: CommandV, bytes: Seq<u8>, text: Seq<char>)
    ensures
        called(command.name).arguments.len() == 0,
        command.with(bytes).name == command.name,
        command.with_secret(bytes).name == command.name,
        command.with(bytes).arguments == command.arguments + seq![
            ArgumentV { bytes, sensitive: false },
        ],
        command.with_secret(bytes).arguments == command.arguments + seq![
            ArgumentV { bytes, sensitive: true },
        ],
        command.with_text(text) == command.with(encode_utf8(text)),
{
    assert(command.arguments.push(ArgumentV { bytes, sensitive: false }) =~= command.arguments
        + seq![ArgumentV { bytes, sensitive: false }]);
    assert(command.arguments.push(ArgumentV { bytes, sensitive: true }) =~= command.arguments
        + seq![ArgumentV { bytes, sensitive: true }]);
}

/// A summary counts the arguments of a command, and among them those that are
/// sensitive.
pub proof fn law_summaries_count_arguments(command: CommandV)
    ensures
        summarized(command).name == command.name,
        summarized(command).arguments == command.arguments.len(),
        summarized(command).sensitive_arguments == command.arguments.filter(
            |argument: ArgumentV| argument.sensitive,
        ).len(),
{
    lemma_secrets_are_counted(command.arguments);
}

proof fn lemma_secrets_are_counted(arguments: Seq<ArgumentV>)
    ensures
        secrets(arguments) == arguments.filter(|argument: ArgumentV| argument.sensitive).len(),
    decreases arguments.len(),
{
    reveal(Seq::filter);
    if arguments.len() > 0 {
        lemma_secrets_are_counted(arguments.drop_last());
    }
}

/// tmux accepted a command exactly where its process ended with zero.
pub proof fn law_zero_is_acceptance(result: ResultV, code: i32)
    ensures
        result.exit_code == Some(code) ==> (result.accepted() <==> code == 0),
        result.exit_code is None ==> !result.accepted(),
{
}

/// The rendering of a summary is the name of the command and the two counts.
pub proof fn law_summaries_are_rendered_by_their_counts(summary: SummaryV)
    ensures
        summary_rendering(summary) == summary.name + " {"@ + " "@ + "arguments"@ + ": "@
            + decimal::decimal(summary.arguments) + ", "@ + "sensitive"@ + ": "@
            + decimal::decimal(summary.sensitive_arguments) + " }"@,
{
    let one = seq![("arguments"@, decimal::decimal(summary.arguments))];
    let two = one.push(("sensitive"@, decimal::decimal(summary.sensitive_arguments)));
    text::law_renderings_list_their_members(
        summary.name,
        one,
        "sensitive"@,
        decimal::decimal(summary.sensitive_arguments),
    );
    text::law_renderings_list_their_members(
        summary.name,
        one,
        "arguments"@,
        decimal::decimal(summary.arguments),
    );
    assert(two =~= seq![
        ("arguments"@, decimal::decimal(summary.arguments)),
        ("sensitive"@, decimal::decimal(summary.sensitive_arguments)),
    ]);
    assert(summary_rendering(summary) =~= summary.name + " {"@ + " "@ + "arguments"@ + ": "@
        + decimal::decimal(summary.arguments) + ", "@ + "sensitive"@ + ": "@ + decimal::decimal(
        summary.sensitive_arguments,
    ) + " }"@);
}

} // verus!
