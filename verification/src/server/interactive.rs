//! What needs a terminal: popups, menus, prompts and choosers.

use vstd::prelude::*;
use vstd::string::*;
use vstd::utf8::*;

use crate::client;
use crate::client::Client;
use crate::command;
use crate::command::Command;
use crate::error;
use crate::error::Error;
use crate::output;
use crate::output::read_lossy;
use crate::server;
use crate::server::Server;

verus! {

/// One of tmux's interactive choosers.
#[derive(Clone, Copy, Debug, PartialEq, Eq, Structural)]
pub enum Chooser {
    /// Browse sessions, windows, and panes together.
    Tree,
    /// Browse attached clients.
    Client,
    /// Browse paste buffers.
    Buffer,
    /// Customize options and key bindings.
    Customize,
}

impl Chooser {
    /// The tmux command that opens this chooser, in contracts.
    pub open spec fn spelling(self) -> Seq<char> {
        match self {
            Chooser::Tree => "choose-tree"@,
            Chooser::Client => "choose-client"@,
            Chooser::Buffer => "choose-buffer"@,
            Chooser::Customize => "customize-mode"@,
        }
    }

    /// The tmux command that opens this chooser.
    pub fn command(self) -> (command: &'static str)
        ensures
            command@ == self.spelling(),
    {
        match self {
            Chooser::Tree => "choose-tree",
            Chooser::Client => "choose-client",
            Chooser::Buffer => "choose-buffer",
            Chooser::Customize => "customize-mode",
        }
    }
}

/// A menu item: a label, a key and a command.
pub struct MenuItem {
    pub label: String,
    pub key: String,
    pub command: String,
}

/// The arguments of menu items, in their order.
pub open spec fn with_items(command: command::CommandV, items: Seq<MenuItem>) -> command::CommandV
    decreases items.len(),
{
    if items.len() == 0 {
        command
    } else {
        with_items(command, items.drop_last()).with_text(items.last().label@).with_text(
            items.last().key@,
        ).with_text(items.last().command@)
    }
}

/// A command on a client, if there is one. A client of another server is
/// refused.
pub open spec fn on_client(
    server: server::ServerV,
    name: Seq<char>,
    command: command::CommandV,
    client: Option<client::ClientV>,
) -> Result<command::CommandV, error::ErrorV> {
    match client {
        None => Ok(command),
        Some(client) => if client.server == server.socket_path {
            Ok(
                command.with_text("-t"@).with_text(
                    output::lossy_text(client::client_name(client.info)),
                ),
            )
        } else {
            Err(error::ErrorV::ServerMismatch { command: name })
        },
    }
}

/// A client in contracts.
pub open spec fn client_view(client: Option<&Client>) -> Option<client::ClientV> {
    match client {
        Some(client) => Some(client@),
        None => None,
    }
}

/// The command of a request in contracts.
pub open spec fn request_view(request: Result<Command, Error>) -> Result<
    command::CommandV,
    error::ErrorV,
> {
    match request {
        Ok(command) => Ok(command@),
        Err(failure) => Err(failure@),
    }
}

impl Server {
    /// Aim a command at a client, if there is one.
    fn aim(&self, name: &'static str, command: Command, client: Option<&Client>) -> (aimed: Result<
        Command,
        Error,
    >)
        ensures
            request_view(aimed) == on_client(self@, name@, command@, client_view(client)),
    {
        match client {
            None => Ok(command),
            Some(client) => {
                if let Err(failure) = self.require_same_server(client.server_identity(), name) {
                    return Err(failure);
                }
                let terminal = read_lossy(client.name().as_bytes());
                Ok(command.text("-t").text(terminal.as_str()))
            },
        }
    }

    /// The command that shows a popup over a client, running a command inside
    /// it.
    ///
    /// # Errors
    ///
    /// [`Error::ServerMismatch`] for a client of another server.
    pub fn display_popup(&self, client: Option<&Client>, command: Vec<u8>) -> (request: Result<
        Command,
        Error,
    >)
        ensures
            request_view(request) == match on_client(
                self@,
                "display-popup"@,
                command::called("display-popup"@).with_text("-E"@),
                client_view(client),
            ) {
                Ok(popup) => Ok(popup.with(command@)),
                Err(failure) => Err(failure),
            },
    {
        match self.aim("display-popup", Command::new("display-popup").text("-E"), client) {
            Ok(popup) => Ok(popup.arg(command)),
            Err(failure) => Err(failure),
        }
    }

    /// The command that shows a menu over a client, with its items in their
    /// order.
    ///
    /// # Errors
    ///
    /// [`Error::ServerMismatch`] for a client of another server.
    pub fn display_menu(&self, client: Option<&Client>, title: &str, items: &Vec<MenuItem>) -> (
    request: Result<Command, Error>)
        ensures
            request_view(request) == match on_client(
                self@,
                "display-menu"@,
                command::called("display-menu"@).with_text("-T"@).with_text(title@),
                client_view(client),
            ) {
                Ok(menu) => Ok(with_items(menu, items@)),
                Err(failure) => Err(failure),
            },
    {
        let mut menu = match self.aim(
            "display-menu",
            Command::new("display-menu").text("-T").text(title),
            client,
        ) {
            Ok(menu) => menu,
            Err(failure) => return Err(failure),
        };
        let ghost start = menu@;
        let mut index: usize = 0;
        assert(items@.take(0) =~= Seq::empty());
        while index < items.len()
            invariant
                index <= items@.len(),
                menu@ == with_items(start, items@.take(index as int)),
            decreases items@.len() - index,
        {
            assert(items@.take(index + 1).drop_last() =~= items@.take(index as int));
            let item = &items[index];
            menu = menu.text(item.label.as_str()).text(item.key.as_str()).text(
                item.command.as_str(),
            );
            index += 1;
        }
        assert(items@.take(items@.len() as int) =~= items@);
        Ok(menu)
    }

    /// The command that opens a command prompt on a client.
    ///
    /// # Errors
    ///
    /// [`Error::ServerMismatch`] for a client of another server.
    pub fn command_prompt(
        &self,
        client: Option<&Client>,
        prompt: Option<&str>,
        command: Vec<u8>,
    ) -> (request: Result<Command, Error>)
        ensures
            request_view(request) == match on_client(
                self@,
                "command-prompt"@,
                command::called("command-prompt"@),
                client_view(client),
            ) {
                Ok(request) => Ok(
                    (match prompt {
                        Some(prompt) => request.with_text("-p"@).with_text(prompt@),
                        None => request,
                    }).with(command@),
                ),
                Err(failure) => Err(failure),
            },
    {
        let mut request = match self.aim("command-prompt", Command::new("command-prompt"), client) {
            Ok(request) => request,
            Err(failure) => return Err(failure),
        };
        if let Some(prompt) = prompt {
            request = request.text("-p").text(prompt);
        }
        Ok(request.arg(command))
    }

    /// The command that opens one of tmux's interactive choosers.
    ///
    /// # Errors
    ///
    /// [`Error::ServerMismatch`] for a client of another server.
    pub fn open_chooser(&self, chooser: Chooser, client: Option<&Client>) -> (request: Result<
        Command,
        Error,
    >)
        ensures
            request_view(request) == on_client(
                self@,
                chooser.spelling(),
                command::called(chooser.spelling()),
                client_view(client),
            ),
    {
        let name = chooser.command();
        self.aim(name, Command::new(name), client)
    }

    /// The command that opens tmux's window finder for a search string.
    ///
    /// # Errors
    ///
    /// [`Error::ServerMismatch`] for a client of another server.
    pub fn find_window(&self, client: Option<&Client>, search: &str) -> (request: Result<
        Command,
        Error,
    >)
        ensures
            request_view(request) == match on_client(
                self@,
                "find-window"@,
                command::called("find-window"@),
                client_view(client),
            ) {
                Ok(request) => Ok(request.with_text(search@)),
                Err(failure) => Err(failure),
            },
    {
        match self.aim("find-window", Command::new("find-window"), client) {
            Ok(request) => Ok(request.text(search)),
            Err(failure) => Err(failure),
        }
    }

    /// The command that briefly shows each pane's number on a client.
    ///
    /// # Errors
    ///
    /// [`Error::ServerMismatch`] for a client of another server.
    pub fn display_panes(&self, client: Option<&Client>) -> (request: Result<Command, Error>)
        ensures
            request_view(request) == on_client(
                self@,
                "display-panes"@,
                command::called("display-panes"@),
                client_view(client),
            ),
    {
        self.aim("display-panes", Command::new("display-panes"), client)
    }
}

/// A command without a client is left as it is, one on a client of the server
/// names the terminal behind `-t`, and one on a client of another server is
/// refused.
pub proof fn law_commands_reach_their_client(
    server: server::ServerV,
    name: Seq<char>,
    command: command::CommandV,
    client: client::ClientV,
)
    ensures
        on_client(server, name, command, None) == Ok::<command::CommandV, error::ErrorV>(command),
        on_client(server, name, command, Some(client)) is Ok <==> client.server
            == server.socket_path,
        on_client(server, name, command, Some(client)) matches Err(failure) ==> failure
            == (error::ErrorV::ServerMismatch { command: name }),
        on_client(server, name, command, Some(client)) matches Ok(aimed) ==> {
            let held = aimed.arguments;
            let count = command.arguments.len() as int;
            &&& aimed.name == command.name
            &&& held.len() == count + 2
            &&& held.take(count) == command.arguments
            &&& held[count].bytes == encode_utf8("-t"@)
            &&& held[count + 1].bytes == encode_utf8(
                output::lossy_text(client::client_name(client.info)),
            )
            &&& !held[count].sensitive && !held[count + 1].sensitive
        },
{
    if let Ok(aimed) = on_client(server, name, command, Some(client)) {
        assert(aimed.arguments.take(command.arguments.len() as int) =~= command.arguments);
    }
}

/// Every item of a menu adds its label, its key and its command, in this order
/// and in the order of the items.
pub proof fn law_menu_items_stand_in_order(command: command::CommandV, items: Seq<MenuItem>)
    ensures
        ({
            let held = with_items(command, items).arguments;
            let start = command.arguments.len() as int;
            &&& with_items(command, items).name == command.name
            &&& held.len() == start + 3 * items.len()
            &&& held.take(start) == command.arguments
            &&& forall|i: int|
                0 <= i < items.len() ==> held.skip(start + 3 * i).take(3) == seq![
                    command::ArgumentV {
                        bytes: encode_utf8((#[trigger] items[i]).label@),
                        sensitive: false,
                    },
                    command::ArgumentV { bytes: encode_utf8(items[i].key@), sensitive: false },
                    command::ArgumentV { bytes: encode_utf8(items[i].command@), sensitive: false },
                ]
        }),
    decreases items.len(),
{
    let held = with_items(command, items).arguments;
    let start = command.arguments.len() as int;
    if items.len() > 0 {
        let head = items.drop_last();
        law_menu_items_stand_in_order(command, head);
        let earlier = with_items(command, head).arguments;
        assert(held.take(start) =~= earlier.take(start));
        assert forall|i: int| 0 <= i < items.len() implies held.skip(start + 3 * i).take(3) == seq![
            command::ArgumentV {
                bytes: encode_utf8((#[trigger] items[i]).label@),
                sensitive: false,
            },
            command::ArgumentV { bytes: encode_utf8(items[i].key@), sensitive: false },
            command::ArgumentV { bytes: encode_utf8(items[i].command@), sensitive: false },
        ] by {
            if i < head.len() {
                assert(head[i] == items[i]);
                assert(held.skip(start + 3 * i).take(3) =~= earlier.skip(start + 3 * i).take(3));
            }
        }
    } else {
        assert(held.take(start) =~= command.arguments);
    }
}

/// Each chooser opens its own mode.
pub proof fn law_choosers_open_their_mode(chooser: Chooser)
    ensures
        chooser is Tree ==> chooser.spelling() == "choose-tree"@,
        chooser is Client ==> chooser.spelling() == "choose-client"@,
        chooser is Buffer ==> chooser.spelling() == "choose-buffer"@,
        chooser is Customize ==> chooser.spelling() == "customize-mode"@,
{
}

} // verus!
