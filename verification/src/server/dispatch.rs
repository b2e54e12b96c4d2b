//! The words of an invocation of tmux.

use vstd::prelude::*;
use vstd::string::*;
use vstd::utf8::*;

use crate::command;
use crate::command::text_bytes;
use crate::command::Argument;
use crate::command::Command;
use crate::error;
use crate::error::Error;
use crate::server;
use crate::server::lifecycle;
use crate::server::limits;
use crate::server::settings;
use crate::server::Server;
use crate::text::copy_bytes;

verus! {

/// A word that diagnostics may show.
pub open spec fn word(text: Seq<char>) -> command::ArgumentV {
    command::ArgumentV { bytes: encode_utf8(text), sensitive: false }
}

/// The words of a command: its name, and its arguments.
pub open spec fn words(command: command::CommandV) -> Seq<command::ArgumentV> {
    seq![word(command.name)] + command.arguments
}

/// The words of commands that run one after another. A semicolon parts them.
pub open spec fn chained(commands: Seq<command::CommandV>) -> Seq<command::ArgumentV>
    decreases commands.len(),
{
    if commands.len() == 0 {
        Seq::empty()
    } else if commands.len() == 1 {
        words(commands[0])
    } else {
        chained(commands.drop_last()) + seq![word(";"@)] + words(commands.last())
    }
}

/// The words that say which server is meant, and how it is configured.
pub open spec fn addressed(server: server::ServerV) -> Seq<command::ArgumentV> {
    let endpoint = command::called("tmux"@).with_text("-S"@).with(server.socket_path);
    let configured = lifecycle::with_flag(endpoint, "-f"@, server.config_file);
    (match server.colors {
        Some(colors) => configured.with_text(
            if colors == 88 {
                "-8"@
            } else {
                "-2"@
            },
        ),
        None => configured,
    }).arguments
}

/// Write the words of a command behind others.
fn add_words(written: &mut Vec<Argument>, command: &Command)
    ensures
        command::argument_views(final(written)@) == command::argument_views(old(written)@) + words(
            command@,
        ),
{
    let ghost before = command::argument_views(written@);
    written.push(Argument::plain(text_bytes(command.name())));
    let ghost named = command::argument_views(written@);
    assert(named =~= before.push(word(command@.name)));
    let arguments = command.arguments();
    let mut index: usize = 0;
    assert(named + command@.arguments.take(0) =~= named);
    while index < arguments.len()
        invariant
            index <= arguments@.len(),
            command::argument_views(arguments@) == command@.arguments,
            command::argument_views(written@) == named + command@.arguments.take(index as int),
        decreases arguments@.len() - index,
    {
        let argument = arguments[index].copy();
        let ghost earlier = command::argument_views(written@);
        written.push(argument);
        assert(command::argument_views(written@) =~= earlier.push(argument@));
        assert(command@.arguments[index as int] == arguments@[index as int]@);
        assert(earlier.push(argument@) =~= named + command@.arguments.take(index + 1));
        index += 1;
    }
    assert(command@.arguments.take(arguments@.len() as int) =~= command@.arguments);
    assert(command::argument_views(written@) =~= before + words(command@));
}

impl Server {
    /// Write the words that say which server is meant.
    fn address(&self) -> (written: Vec<Argument>)
        ensures
            command::argument_views(written@) == addressed(self@),
    {
        let mut command = Command::new("tmux").text("-S").arg(copy_bytes(self.socket_path()));
        if let Some(path) = self.config_file() {
            command = command.text("-f").arg(copy_bytes(path));
        }
        if let Some(colors) = self.colors() {
            command = command.text(
                if colors == 88 {
                    "-8"
                } else {
                    "-2"
                },
            );
        }
        let ghost all = command@.arguments;
        let arguments = command.arguments();
        let mut written: Vec<Argument> = Vec::new();
        let mut index: usize = 0;
        assert(command::argument_views(written@) =~= all.take(0));
        while index < arguments.len()
            invariant
                index <= arguments@.len(),
                command::argument_views(arguments@) == all,
                command::argument_views(written@) == all.take(index as int),
            decreases arguments@.len() - index,
        {
            let argument = arguments[index].copy();
            let ghost earlier = command::argument_views(written@);
            written.push(argument);
            assert(all[index as int] == arguments@[index as int]@);
            assert(command::argument_views(written@) =~= earlier.push(argument@));
            assert(earlier.push(argument@) =~= all.take(index + 1));
            index += 1;
        }
        assert(all.take(arguments@.len() as int) =~= all);
        written
    }

    /// Let a command start while others are under way.
    ///
    /// # Errors
    ///
    /// [`Error::Overloaded`] where as many are as the server's limits allow.
    pub fn begin(&self, command: &'static str, in_flight: usize) -> (admitted: Result<(), Error>)
        ensures
            error::failure(admitted) == if limits::within(
                self@.dispatch_limits.max_in_flight,
                in_flight + 1,
            ) {
                None
            } else {
                Some(error::ErrorV::Overloaded { command: command@, in_flight })
            },
    {
        if self.dispatch_limits().admits(in_flight) {
            Ok(())
        } else {
            Err(Error::Overloaded { command, in_flight })
        }
    }

    /// The words behind the executable that run one command on the server.
    pub fn cmd(&self, command: &Command) -> (written: Vec<Argument>)
        ensures
            command::argument_views(written@) == addressed(self@) + words(command@),
    {
        let mut written = self.address();
        add_words(&mut written, command);
        written
    }

    /// The words behind the executable that run commands on the server in one
    /// invocation. tmux runs them up to the first failure and drops the rest.
    pub fn chain(&self, commands: &Vec<Command>) -> (written: Vec<Argument>)
        ensures
            command::argument_views(written@) == addressed(self@) + chained(
                settings::command_views(commands@),
            ),
    {
        let ghost views = settings::command_views(commands@);
        let mut written = self.address();
        let ghost start = addressed(self@);
        let mut index: usize = 0;
        assert(start + chained(views.take(0)) =~= start);
        while index < commands.len()
            invariant
                index <= commands@.len(),
                views == settings::command_views(commands@),
                command::argument_views(written@) == start + chained(views.take(index as int)),
            decreases commands@.len() - index,
        {
            let ghost longer = views.take(index + 1);
            assert(longer.drop_last() =~= views.take(index as int));
            assert(longer.last() == commands@[index as int]@);
            let ghost before = command::argument_views(written@);
            if index > 0 {
                written.push(Argument::plain(text_bytes(";")));
                assert(command::argument_views(written@) =~= before.push(word(";"@)));
            }
            add_words(&mut written, &commands[index]);
            assert(command::argument_views(written@) =~= start + chained(longer));
            index += 1;
        }
        assert(views.take(commands@.len() as int) =~= views);
        written
    }
}

/// Commands that are chained behind others stand behind a semicolon, in their
/// own words.
pub proof fn law_chains_are_joined(left: Seq<command::CommandV>, right: Seq<command::CommandV>)
    requires
        left.len() > 0,
        right.len() > 0,
    ensures
        chained(left + right) == chained(left) + seq![word(";"@)] + chained(right),
    decreases right.len(),
{
    let all = left + right;
    assert(all.drop_last() =~= left + right.drop_last());
    assert(all.last() == right.last());
    if right.len() == 1 {
        assert(left + right.drop_last() =~= left);
        assert(right[0] == right.last());
    } else {
        law_chains_are_joined(left, right.drop_last());
        assert(chained(all) =~= chained(left) + seq![word(";"@)] + chained(right));
    }
}

/// An invocation names the socket behind `-S`, then the configuration file
/// behind `-f` if there is one, and last the mark of the colors that the client
/// is said to show: `-8` for 88 and `-2` for any other number.
pub proof fn law_invocations_name_their_server(server: server::ServerV)
    ensures
        ({
            let held = addressed(server);
            let configured: int = if server.config_file is Some { 2 } else { 0 };
            &&& held.len() == 2 + configured + if server.colors is Some { 1int } else { 0 }
            &&& held[0].bytes == encode_utf8("-S"@)
            &&& held[1].bytes == server.socket_path
            &&& server.config_file matches Some(path) ==> held[2].bytes == encode_utf8("-f"@)
                && held[3].bytes == path
            &&& server.colors == Some(88u16) ==> held.last().bytes == encode_utf8("-8"@)
            &&& server.colors is Some && server.colors != Some(88u16) ==> held.last().bytes
                == encode_utf8("-2"@)
            &&& forall|i: int| 0 <= i < held.len() ==> !(#[trigger] held[i]).sensitive
        }),
{
}

/// A command is written as its name and its arguments, and a chain of one
/// command as that command.
pub proof fn law_commands_are_written_in_order(command: command::CommandV)
    ensures
        words(command).len() == command.arguments.len() + 1,
        words(command)[0].bytes == encode_utf8(command.name),
        !words(command)[0].sensitive,
        words(command).skip(1) == command.arguments,
        chained(seq![command]) == words(command),
        chained(Seq::empty()) == Seq::<command::ArgumentV>::empty(),
        word(";"@).bytes == encode_utf8(";"@),
{
    assert(words(command).skip(1) =~= command.arguments);
}

} // verus!
