//! Options, hooks and environments, and the tables that tmux keeps them in.

use vstd::prelude::*;
use vstd::string::*;
use vstd::utf8::*;

use crate::command;
use crate::command::Command;
use crate::command::CommandResult;
use crate::decimal;
use crate::decimal::format_unsigned;
use crate::decimal::parse_unsigned_decimal;
use crate::error;
use crate::error::Error;
use crate::output;
use crate::output::lines;
use crate::output::read_framed;
use crate::output::read_lossy;
use crate::server::Server;
use crate::target;
use crate::target::SessionId;
use crate::text;
use crate::text::copy_bytes;
use crate::text::starts_with;
use crate::text::to_chars;
use crate::text::TmuxText;

verus! {

/// A table of options or hooks.
#[derive(Clone, Copy, Debug, PartialEq, Eq, Structural)]
pub enum OptionTable {
    /// The server's own options.
    Server,
    /// What sessions inherit.
    GlobalSession,
    /// What windows inherit.
    GlobalWindow,
    /// A session's own options.
    Session(SessionId),
}

/// Where an option can be set.
#[derive(Clone, Copy, Debug, PartialEq, Eq, Structural)]
pub enum OptionScope {
    Server,
    Session,
    Window,
    Pane,
}

/// The table that an array option is kept in, reached from a server. For an
/// option that is not the server's, that is the server-wide default.
pub open spec fn array_table(scopes: Option<Seq<OptionScope>>) -> OptionTable {
    match scopes {
        Some(scopes) => if scopes.contains(OptionScope::Server) {
            OptionTable::Server
        } else if scopes.contains(OptionScope::Window) {
            OptionTable::GlobalWindow
        } else {
            OptionTable::GlobalSession
        },
        None => OptionTable::GlobalSession,
    }
}

/// Report whether an option can be set somewhere.
fn has_scope(scopes: &Vec<OptionScope>, scope: OptionScope) -> (has: bool)
    ensures
        has == scopes@.contains(scope),
{
    let mut index: usize = 0;
    while index < scopes.len()
        invariant
            index <= scopes@.len(),
            forall|i: int| 0 <= i < index ==> #[trigger] scopes@[i] != scope,
        decreases scopes@.len() - index,
    {
        if scopes[index] == scope {
            assert(scopes@[index as int] == scope);
            return true;
        }
        index += 1;
    }
    false
}

/// Pick the table of an array option from what is known of it.
pub fn array_scope(scopes: Option<&Vec<OptionScope>>) -> (table: OptionTable)
    ensures
        table == array_table(scopes_view(scopes)),
{
    match scopes {
        Some(scopes) => if has_scope(scopes, OptionScope::Server) {
            OptionTable::Server
        } else if has_scope(scopes, OptionScope::Window) {
            OptionTable::GlobalWindow
        } else {
            OptionTable::GlobalSession
        },
        None => OptionTable::GlobalSession,
    }
}

/// Where the options of a table can be set.
pub open spec fn scope_of(table: OptionTable) -> OptionScope {
    match table {
        OptionTable::Server => OptionScope::Server,
        OptionTable::GlobalSession | OptionTable::Session(_) => OptionScope::Session,
        OptionTable::GlobalWindow => OptionScope::Window,
    }
}

/// Whether tmux keeps an option in another table, as far as is known of it.
/// Nothing is known of a user option.
pub open spec fn kept_elsewhere(table: OptionTable, scopes: Option<Seq<OptionScope>>) -> bool {
    match scopes {
        Some(scopes) => !scopes.contains(scope_of(table)),
        None => false,
    }
}

impl OptionTable {
    /// Refuse an option that tmux keeps in another table.
    ///
    /// # Errors
    ///
    /// [`Error::OptionScopeMismatch`] where the option has scopes and the
    /// table's is none of them.
    pub fn require_scope(&self, name: &str, scopes: Option<&Vec<OptionScope>>) -> (result: Result<
        (),
        Error,
    >)
        ensures
            error::failure(result) == if kept_elsewhere(*self, scopes_view(scopes)) {
                Some(error::ErrorV::OptionScopeMismatch { name: name@ })
            } else {
                None
            },
    {
        let scope = match self {
            OptionTable::Server => OptionScope::Server,
            OptionTable::GlobalSession | OptionTable::Session(_) => OptionScope::Session,
            OptionTable::GlobalWindow => OptionScope::Window,
        };
        match scopes {
            Some(scopes) => if has_scope(scopes, scope) {
                Ok(())
            } else {
                Err(Error::OptionScopeMismatch { name: name.to_owned() })
            },
            None => Ok(()),
        }
    }
}

/// A command on a table.
pub open spec fn on_table(command: command::CommandV, table: OptionTable) -> command::CommandV {
    match table {
        OptionTable::Server => command.with_text("-s"@),
        OptionTable::GlobalSession => command.with_text("-g"@),
        OptionTable::GlobalWindow => command.with_text("-g"@).with_text("-w"@),
        OptionTable::Session(id) => command.with_text("-t"@).with_text(target::id_text('$', id@)),
    }
}

/// Add a table to a command.
fn add_table(command: Command, table: &OptionTable) -> (aimed: Command)
    ensures
        aimed@ == on_table(command@, *table),
{
    match table {
        OptionTable::Server => command.text("-s"),
        OptionTable::GlobalSession => command.text("-g"),
        OptionTable::GlobalWindow => command.text("-g").text("-w"),
        OptionTable::Session(id) => command.text("-t").text(id.text().as_str()),
    }
}

/// The name of one index of an array option.
pub open spec fn indexed(name: Seq<char>, index: u32) -> Seq<char> {
    name + "["@ + decimal::decimal(index as nat) + "]"@
}

/// Write the name of one index of an array option.
pub fn index_name(name: &str, index: u32) -> (indexed_name: String)
    ensures
        indexed_name@ == indexed(name@, index),
{
    let mut written = name.to_owned();
    written.append("[");
    written.append(format_unsigned(index as u128).as_str());
    written.append("]");
    written
}

/// Two indices of an array option have different names.
pub proof fn law_index_names_are_distinct(name: Seq<char>, left: u32, right: u32)
    requires
        indexed(name, left) == indexed(name, right),
    ensures
        left == right,
{
    reveal_strlit("]");
    let one = decimal::decimal(left as nat);
    let other = decimal::decimal(right as nat);
    let start = name + "["@;
    assert(indexed(name, left).len() == start.len() + one.len() + 1);
    assert(indexed(name, right).len() == start.len() + other.len() + 1);
    assert(indexed(name, left).subrange(start.len() as int, (start.len() + one.len()) as int) =~= one);
    assert(indexed(name, right).subrange(start.len() as int, (start.len() + other.len()) as int) =~= other);
    decimal::lemma_decimal_is_injective(left as nat, right as nat);
}

/// The indices that names have under the name of an array option. A name
/// without an index has none.
pub open spec fn indices_of(name: Seq<char>, names: Seq<Seq<char>>) -> Seq<u32>
    decreases names.len(),
{
    if names.len() == 0 {
        Seq::empty()
    } else {
        let earlier = indices_of(name, names.drop_last());
        match index_in(name, names.last()) {
            Some(index) => earlier.push(index),
            None => earlier,
        }
    }
}

/// The index that a name has under the name of an array option.
pub open spec fn index_in(name: Seq<char>, written: Seq<char>) -> Option<u32> {
    if exists|index: u32| written == #[trigger] indexed(name, index) {
        Some(choose|index: u32| written == #[trigger] indexed(name, index))
    } else {
        None
    }
}

/// Every index of an array option is read back from its name.
pub proof fn law_indices_are_read_back(name: Seq<char>, index: u32)
    ensures
        index_in(name, indexed(name, index)) == Some(index),
{
    let found = index_in(name, indexed(name, index))->0;
    law_index_names_are_distinct(name, found, index);
}

/// Read the index that a name has under the name of an array option.
pub fn parse_index(name: &str, written: &str) -> (found: Option<u32>)
    ensures
        found == index_in(name@, written@),
{
    let mut opening = name.to_owned();
    opening.append("[");
    let start = to_chars(opening.as_str());
    let chars = to_chars(written);
    proof {
        reveal_strlit("[");
        reveal_strlit("]");
        assert forall|index: u32| written@ == #[trigger] indexed(name@, index) implies {
            &&& opening@.is_prefix_of(written@)
            &&& written@.len() == start@.len() + decimal::decimal(index as nat).len() + 1
            &&& written@.last() == ']'
            &&& written@.subrange(start@.len() as int, written@.len() - 1) == decimal::decimal(
                index as nat,
            )
        } by {
            let digits = decimal::decimal(index as nat);
            assert(written@.subrange(0, opening@.len() as int) =~= opening@);
            assert(written@.subrange(start@.len() as int, written@.len() - 1) =~= digits);
        }
    }
    if !starts_with(written, opening.as_str()) || chars.len() <= start.len() || chars[chars.len()
        - 1] != ']' {
        return None;
    }
    let digits = written.substring_char(start.len(), chars.len() - 1);
    let number = match parse_number(digits) {
        Some(number) => number,
        None => {
            assert forall|index: u32| written@ != #[trigger] indexed(name@, index) by {
                assert(digits@ != decimal::decimal(index as nat));
            }
            return None;
        },
    };
    proof {
        let whole = indexed(name@, number);
        assert(written@ =~= whole) by {
            assert(opening@ == written@.subrange(0, opening@.len() as int));
        }
        law_indices_are_read_back(name@, number);
    }
    Some(number)
}

/// Read canonical decimal notation of an index.
fn parse_number(digits: &str) -> (found: Option<u32>)
    ensures
        match found {
            Some(number) => digits@ == decimal::decimal(number as nat),
            None => forall|number: u32| digits@ != #[trigger] decimal::decimal(number as nat),
        },
{
    match parse_unsigned_decimal(digits.as_bytes()) {
        Some(number) => {
            proof {
                lemma_notation_bytes(digits@, number as nat);
            }
            if number <= 4_294_967_295 {
                return Some(number as u32);
            }
            assert forall|other: u32| digits@ != #[trigger] decimal::decimal(other as nat) by {
                if digits@ == decimal::decimal(other as nat) {
                    decimal::lemma_decimal_is_injective(other as nat, number as nat);
                }
            }
            None
        },
        None => {
            assert forall|other: u32| digits@ != #[trigger] decimal::decimal(other as nat) by {
                let number = other as u128;
                lemma_notation_bytes(digits@, number as nat);
                assert(digits.spec_bytes() != text::ascii(decimal::decimal(number as nat)));
            }
            None
        },
    }
}

/// A text is a number's notation exactly where its bytes are.
proof fn lemma_notation_bytes(written: Seq<char>, number: nat)
    ensures
        encode_utf8(written) == text::ascii(decimal::decimal(number)) <==> written
            == decimal::decimal(number),
{
    decimal::lemma_signed_decimal_is_ascii(number as int);
    text::lemma_ascii_encoding(decimal::decimal(number));
    text::lemma_encoding_is_injective(written, decimal::decimal(number));
}

/// Whether writing a hook clears it first.
#[derive(Clone, Copy, Debug, PartialEq, Eq, Structural)]
pub enum ReplaceMode {
    /// Only what is written remains.
    Replace,
    /// Entries that are not written remain.
    Merge,
}

/// One entry of a hook.
pub struct HookEntry {
    pub index: u32,
    pub command: TmuxText,
}

/// One entry of a hook, in contracts.
#[verifier::ext_equal]
pub ghost struct HookV {
    pub index: u32,
    pub command: Seq<u8>,
}

/// The entries of a hook in contracts.
pub open spec fn hook_views(hooks: Seq<HookEntry>) -> Seq<HookV> {
    hooks.map_values(|hook: HookEntry| HookV { index: hook.index, command: hook.command@ })
}

/// The commands of a list in contracts.
pub open spec fn command_views(commands: Seq<Command>) -> Seq<command::CommandV> {
    commands.map_values(|command: Command| command@)
}

/// The commands that write the entries of a hook.
pub open spec fn entries_written(table: OptionTable, name: Seq<char>, hooks: Seq<HookV>) -> Seq<
    command::CommandV,
>
    decreases hooks.len(),
{
    if hooks.len() == 0 {
        Seq::empty()
    } else {
        entries_written(table, name, hooks.drop_last()).push(
            on_table(command::called("set-hook"@), table).with_text(
                indexed(name, hooks.last().index),
            ).with(hooks.last().command),
        )
    }
}

/// The commands that write a whole hook.
pub open spec fn hook_written(
    table: OptionTable,
    name: Seq<char>,
    hooks: Seq<HookV>,
    replace: ReplaceMode,
) -> Seq<command::CommandV> {
    (match replace {
        ReplaceMode::Replace => seq![
            on_table(command::called("set-hook"@), table).with_text("-u"@).with_text(name),
        ],
        ReplaceMode::Merge => Seq::empty(),
    }) + entries_written(table, name, hooks)
}

/// An entry of an environment.
pub enum EnvironmentEntry {
    /// A value.
    Value(TmuxText),
    /// A mark that a process must not inherit the name.
    Removed,
}

/// An entry of an environment, in contracts.
#[verifier::ext_equal]
pub ghost enum EntryV {
    Value(Seq<u8>),
    Removed,
}

impl EnvironmentEntry {
    /// The entry in contracts.
    pub open spec fn view(&self) -> EntryV {
        match self {
            EnvironmentEntry::Value(value) => EntryV::Value(value@),
            EnvironmentEntry::Removed => EntryV::Removed,
        }
    }
}

/// What tmux prints of a variable: its name, an equals sign and its value, or a
/// dash and its name.
pub open spec fn entry_of(name: Seq<u8>, printed: Seq<u8>) -> Option<EntryV> {
    if printed == seq![45u8] + name {
        Some(EntryV::Removed)
    } else if (name + seq![61u8]).is_prefix_of(printed) {
        Some(EntryV::Value(printed.skip((name.len() + 1) as int)))
    } else {
        None
    }
}

/// Whether bytes stand at the front of others.
fn stands_in_front(front: &Vec<u8>, whole: &[u8]) -> (found: bool)
    ensures
        found == front@.is_prefix_of(whole@),
{
    if front.len() > whole.len() {
        return false;
    }
    let mut index: usize = 0;
    while index < front.len()
        invariant
            index <= front@.len() <= whole@.len(),
            forall|i: int| 0 <= i < index ==> front@[i] == #[trigger] whole@[i],
        decreases front@.len() - index,
    {
        if front[index] != whole[index] {
            proof {
                if front@.is_prefix_of(whole@) {
                    assert(whole@.subrange(0, front@.len() as int)[index as int]
                        == whole@[index as int]);
                }
            }
            return false;
        }
        index += 1;
    }
    assert(front@ =~= whole@.subrange(0, front@.len() as int));
    true
}

/// Read what tmux prints of a variable.
pub fn parse_entry(name: &[u8], printed: &[u8]) -> (entry: Option<EnvironmentEntry>)
    ensures
        match entry {
            Some(entry) => entry_of(name@, printed@) == Some(entry@),
            None => entry_of(name@, printed@) is None,
        },
{
    let mut removed: Vec<u8> = Vec::new();
    removed.push(45);
    let mut spelled = copy_bytes(name);
    removed.append(&mut spelled);
    assert(removed@ =~= seq![45u8] + name@);
    if removed.len() == printed.len() && stands_in_front(&removed, printed) {
        assert(printed@ =~= printed@.subrange(0, printed@.len() as int));
        return Some(EnvironmentEntry::Removed);
    }
    proof {
        if printed@ == removed@ {
            assert(printed@ =~= printed@.subrange(0, printed@.len() as int));
        }
    }
    let mut assigned = copy_bytes(name);
    assigned.push(61);
    assert(assigned@ =~= name@ + seq![61u8]);
    if !stands_in_front(&assigned, printed) {
        return None;
    }
    let mut value: Vec<u8> = Vec::new();
    let mut index: usize = assigned.len();
    while index < printed.len()
        invariant
            assigned@.len() == name@.len() + 1,
            assigned@.len() <= index <= printed@.len(),
            value@ == printed@.subrange(assigned@.len() as int, index as int),
        decreases printed@.len() - index,
    {
        value.push(printed[index]);
        index += 1;
        assert(value@ =~= printed@.subrange(assigned@.len() as int, index as int));
    }
    assert(value@ =~= printed@.skip((name@.len() + 1) as int));
    Some(EnvironmentEntry::Value(TmuxText::from_bytes(value)))
}

/// A value that tmux printed of a variable is read back, whatever the name and
/// the value are, and so is the mark that it prints of a hidden one.
pub proof fn law_environment_values_are_read_back(name: Seq<u8>, value: Seq<u8>)
    ensures
        entry_of(name, name + seq![61u8] + value) == Some(EntryV::Value(value)),
        entry_of(name, seq![45u8] + name) == Some(EntryV::Removed),
{
    let printed = name + seq![61u8] + value;
    let removed = seq![45u8] + name;
    if printed == removed {
        lemma_only_dashes(name, printed, name.len() as int);
        assert(printed[name.len() as int] == 61);
        assert(removed[name.len() as int] == 45);
    }
    assert(printed.skip((name.len() + 1) as int) =~= value);
    assert((name + seq![61u8]) =~= printed.subrange(0, (name.len() + 1) as int));
}

/// A text that starts with a name, and is the name behind a dash, starts with
/// as many dashes as the name is long.
proof fn lemma_only_dashes(name: Seq<u8>, printed: Seq<u8>, count: int)
    requires
        0 <= count <= name.len(),
        printed == seq![45u8] + name,
        name.len() <= printed.len(),
        forall|i: int| 0 <= i < name.len() ==> #[trigger] printed[i] == name[i],
    ensures
        forall|i: int| 0 <= i < count ==> #[trigger] name[i] == 45,
        printed[count] == 45,
    decreases count,
{
    if count > 0 {
        lemma_only_dashes(name, printed, count - 1);
        assert(printed[count - 1] == name[count - 1]);
        assert(printed[count] == name[count - 1]);
    }
}

/// What a table of environments is addressed by.
#[derive(Clone, Copy, Debug, PartialEq, Eq, Structural)]
pub enum EnvironmentTable {
    /// The server's own environment.
    Global,
    /// A session's environment.
    Session(SessionId),
}

/// A command on an environment.
pub open spec fn on_environment(
    command: command::CommandV,
    table: EnvironmentTable,
) -> command::CommandV {
    match table {
        EnvironmentTable::Global => command.with_text("-g"@),
        EnvironmentTable::Session(id) => command.with_text("-t"@).with_text(
            target::id_text('$', id@),
        ),
    }
}

/// Add an environment to a command.
pub(crate) fn add_environment(command: Command, table: &EnvironmentTable) -> (aimed: Command)
    ensures
        aimed@ == on_environment(command@, *table),
{
    match table {
        EnvironmentTable::Global => command.text("-g"),
        EnvironmentTable::Session(id) => command.text("-t").text(id.text().as_str()),
    }
}

/// The characters in front of the first space.
pub open spec fn first_word(line: Seq<char>) -> Seq<char>
    decreases line.len(),
{
    if line.len() == 0 || line[0] == ' ' {
        Seq::empty()
    } else {
        seq![line[0]] + first_word(line.skip(1))
    }
}

/// The names that a listing of options holds: the first word of each line.
pub open spec fn names_of(lines: Seq<Seq<char>>) -> Seq<Seq<char>> {
    lines.map_values(|line: Seq<char>| first_word(line))
}

/// The first word of a line.
fn take_first_word(line: &str) -> (word: &str)
    ensures
        word@ == first_word(line@),
{
    let chars = to_chars(line);
    let mut end: usize = 0;
    assert(line@.skip(0) =~= line@);
    assert(line@.take(0) + first_word(line@) =~= first_word(line@));
    while end < chars.len() && chars[end] != ' '
        invariant
            end <= chars@.len(),
            chars@ == line@,
            line@.take(end as int) + first_word(line@.skip(end as int)) == first_word(line@),
        decreases chars@.len() - end,
    {
        let ghost rest = line@.skip(end as int);
        assert(rest[0] == chars@[end as int]);
        assert(rest.skip(1) =~= line@.skip(end + 1));
        assert(line@.take(end as int) + (seq![rest[0]] + first_word(rest.skip(1))) =~= line@.take(
            end + 1,
        ) + first_word(line@.skip(end + 1)));
        end += 1;
    }
    proof {
        let rest = line@.skip(end as int);
        if end < chars@.len() {
            assert(rest[0] == chars@[end as int]);
        }
        assert(line@.take(end as int) + Seq::<char>::empty() =~= line@.take(end as int));
        assert(line@.subrange(0, end as int) =~= line@.take(end as int));
    }
    line.substring_char(0, end)
}

/// Read the names that a listing of options holds.
pub fn parse_option_names(listing: &str) -> (names: Vec<String>)
    ensures
        output::string_views(names@) == names_of(output::lines_of(listing@)),
{
    let lines = lines(listing);
    let ghost views = text::slices(lines@);
    let mut names: Vec<String> = Vec::new();
    let mut index: usize = 0;
    while index < lines.len()
        invariant
            index <= lines@.len(),
            views == text::slices(lines@),
            names@.len() == index,
            forall|i: int|
                0 <= i < index ==> (#[trigger] names@[i])@ == first_word(views[i]),
        decreases lines@.len() - index,
    {
        assert(views[index as int] == lines@[index as int]@);
        names.push(take_first_word(lines[index]).to_owned());
        index += 1;
    }
    assert(output::string_views(names@) =~= names_of(views));
    names
}

impl OptionTable {
    /// The command that shows one option's exact stored value.
    pub fn get_option(&self, name: &str) -> (command: Command)
        ensures
            command@ == on_table(command::called("show-options"@).with_text("-v"@), *self).with_text(
                name@,
            ),
    {
        add_table(Command::new("show-options").text("-v"), self).text(name)
    }

    /// The command that lists the options that are set.
    pub fn option_names(&self) -> (command: Command)
        ensures
            command@ == on_table(command::called("show-options"@), *self),
    {
        add_table(Command::new("show-options"), self)
    }

    /// The command that sets one option, or extends its value. The value is
    /// sensitive.
    pub fn set_option(&self, name: &str, value: Vec<u8>, append: bool) -> (command: Command)
        ensures
            command@ == (if append {
                on_table(command::called("set-option"@), *self).with_text("-a"@)
            } else {
                on_table(command::called("set-option"@), *self)
            }).with_text(name@).with_secret(value@),
    {
        let mut command = add_table(Command::new("set-option"), self);
        if append {
            command = command.text("-a");
        }
        command.text(name).sensitive_arg(value)
    }

    /// The command that removes one option.
    pub fn unset_option(&self, name: &str) -> (command: Command)
        ensures
            command@ == on_table(command::called("set-option"@), *self).with_text("-u"@).with_text(
                name@,
            ),
    {
        add_table(Command::new("set-option"), self).text("-u").text(name)
    }

    /// The command that sets one hook.
    pub fn write_hook(&self, name: &str, command: Vec<u8>) -> (set: Command)
        ensures
            set@ == on_table(command::called("set-hook"@), *self).with_text(name@).with(command@),
    {
        add_table(Command::new("set-hook"), self).text(name).arg(command)
    }

    /// The command that removes one hook.
    pub fn unset_hook(&self, name: &str) -> (unset: Command)
        ensures
            unset@ == on_table(command::called("set-hook"@), *self).with_text("-u"@).with_text(
                name@,
            ),
    {
        add_table(Command::new("set-hook"), self).text("-u").text(name)
    }

    /// The commands that write a whole hook, to be sent as one invocation.
    pub fn write_hooks(&self, name: &str, hooks: &Vec<HookEntry>, replace: ReplaceMode) -> (chain:
        Vec<Command>)
        ensures
            command_views(chain@) == hook_written(*self, name@, hook_views(hooks@), replace),
    {
        let ghost views = hook_views(hooks@);
        let mut chain: Vec<Command> = Vec::new();
        if let ReplaceMode::Replace = replace {
            chain.push(self.unset_hook(name));
        }
        let ghost start = command_views(chain@);
        let mut index: usize = 0;
        assert(views.take(0) =~= Seq::empty());
        assert(start + Seq::<command::CommandV>::empty() =~= start);
        while index < hooks.len()
            invariant
                index <= hooks@.len(),
                views == hook_views(hooks@),
                command_views(chain@) == start + entries_written(
                    *self,
                    name@,
                    views.take(index as int),
                ),
            decreases hooks@.len() - index,
        {
            let ghost longer = views.take(index + 1);
            let ghost earlier = entries_written(*self, name@, views.take(index as int));
            assert(longer.drop_last() =~= views.take(index as int));
            let hook = &hooks[index];
            let entry = add_table(Command::new("set-hook"), self).text(
                index_name(name, hook.index).as_str(),
            ).arg(copy_bytes(hook.command.as_bytes()));
            let ghost before = command_views(chain@);
            chain.push(entry);
            assert(command_views(chain@) =~= before.push(entry@));
            assert(before.push(entry@) =~= start + earlier.push(entry@));
            index += 1;
        }
        assert(views.take(hooks@.len() as int) =~= views);
        proof {
            match replace {
                ReplaceMode::Replace => {
                    assert(start =~= seq![
                        on_table(command::called("set-hook"@), *self).with_text("-u"@).with_text(
                            name@,
                        ),
                    ]);
                },
                ReplaceMode::Merge => {
                    assert(start =~= Seq::empty());
                },
            }
        }
        chain
    }
}

impl EnvironmentTable {
    /// The command that sets a variable. The value is sensitive, since an
    /// environment carries tokens.
    pub fn set_environment(&self, name: &str, value: Vec<u8>) -> (command: Command)
        ensures
            command@ == on_environment(command::called("set-environment"@), *self).with_text(
                name@,
            ).with_secret(value@),
    {
        add_environment(Command::new("set-environment"), self).text(name).sensitive_arg(value)
    }

    /// The command that shows a variable.
    pub fn environment(&self, name: &str) -> (command: Command)
        ensures
            command@ == on_environment(command::called("show-environment"@), *self).with_text(
                name@,
            ),
    {
        add_environment(Command::new("show-environment"), self).text(name)
    }

    /// The command that hides a variable from processes tmux starts.
    pub fn hide_environment(&self, name: &str) -> (command: Command)
        ensures
            command@ == on_environment(command::called("set-environment"@), *self).with_text(
                "-r"@,
            ).with_text(name@),
    {
        add_environment(Command::new("set-environment"), self).text("-r").text(name)
    }

    /// The command that removes a variable.
    pub fn unset_environment(&self, name: &str) -> (command: Command)
        ensures
            command@ == on_environment(command::called("set-environment"@), *self).with_text(
                "-u"@,
            ).with_text(name@),
    {
        add_environment(Command::new("set-environment"), self).text("-u").text(name)
    }
}

/// What a listing of options says of one option: nothing is printed for one
/// without a value.
pub open spec fn option_value(stdout: Seq<u8>) -> Option<Seq<u8>> {
    if stdout.len() == 0 {
        None
    } else {
        Some(output::unframed(stdout))
    }
}

/// What an answer says of one variable.
pub open spec fn variable(name: Seq<char>, result: command::ResultV) -> Result<
    Option<EntryV>,
    error::ErrorV,
> {
    if result.accepted() {
        Ok(entry_of(encode_utf8(name), output::unframed(result.stdout)))
    } else if "unknown variable"@.is_prefix_of(output::lossy_text(result.stderr)) {
        Ok(None)
    } else {
        Err(error::refused("show-environment"@, result))
    }
}

/// An option and what tmux answered for it.
pub struct OptionAnswer {
    pub name: String,
    /// The value, where the option has one.
    pub value: Option<TmuxText>,
}

/// An option and its value.
pub struct NamedOption {
    pub name: String,
    pub value: TmuxText,
}

/// An option and what tmux answered for it, in contracts.
#[verifier::ext_equal]
pub ghost struct OptionAnswerV {
    pub name: Seq<char>,
    pub value: Option<Seq<u8>>,
}

/// An option and its value, in contracts.
#[verifier::ext_equal]
pub ghost struct NamedOptionV {
    pub name: Seq<char>,
    pub value: Seq<u8>,
}

impl OptionAnswer {
    /// The answer in contracts.
    pub open spec fn view(&self) -> OptionAnswerV {
        OptionAnswerV {
            name: self.name@,
            value: match self.value {
                Some(value) => Some(value@),
                None => None,
            },
        }
    }
}

/// The answers of a list in contracts.
pub open spec fn option_answer_views(answers: Seq<OptionAnswer>) -> Seq<OptionAnswerV> {
    answers.map_values(|answer: OptionAnswer| answer@)
}

/// The options of a list in contracts.
pub open spec fn named_option_views(options: Seq<NamedOption>) -> Seq<NamedOptionV> {
    options.map_values(
        |option: NamedOption| NamedOptionV { name: option.name@, value: option.value@ },
    )
}

/// The options that have a value, in the order of the answers.
pub open spec fn valued(answers: Seq<OptionAnswerV>) -> Seq<NamedOptionV>
    decreases answers.len(),
{
    if answers.len() == 0 {
        Seq::empty()
    } else {
        let earlier = valued(answers.drop_last());
        match answers.last().value {
            Some(value) => earlier.push(NamedOptionV { name: answers.last().name, value }),
            None => earlier,
        }
    }
}

/// Keep the options that have a value, in the order of the answers.
pub fn collect_options(answers: &Vec<OptionAnswer>) -> (options: Vec<NamedOption>)
    ensures
        named_option_views(options@) == valued(option_answer_views(answers@)),
{
    let ghost views = option_answer_views(answers@);
    let mut options: Vec<NamedOption> = Vec::new();
    let mut index: usize = 0;
    assert(views.take(0) =~= Seq::empty());
    assert(named_option_views(options@) =~= Seq::empty());
    while index < answers.len()
        invariant
            index <= answers@.len(),
            views == option_answer_views(answers@),
            named_option_views(options@) == valued(views.take(index as int)),
        decreases answers@.len() - index,
    {
        let ghost longer = views.take(index + 1);
        assert(longer.drop_last() =~= views.take(index as int));
        assert(longer.last() == answers@[index as int]@);
        let answer = &answers[index];
        if let Some(value) = &answer.value {
            let ghost before = named_option_views(options@);
            let option = NamedOption { name: answer.name.clone(), value: value.copy() };
            options.push(option);
            assert(named_option_views(options@) =~= before.push(
                NamedOptionV { name: option.name@, value: option.value@ },
            ));
        }
        index += 1;
    }
    assert(views.take(answers@.len() as int) =~= views);
    options
}

/// Whether tmux refused to show a user option because it is not set. A user
/// option exists only while it is.
pub open spec fn user_option_unset(name: Seq<char>, result: command::ResultV) -> bool {
    !result.accepted() && "@"@.is_prefix_of(name) && "invalid option: "@.is_prefix_of(
        output::lossy_text(result.stderr),
    )
}

/// Read one option's exact stored value. A user option that is not set has
/// none.
///
/// # Errors
///
/// Why tmux refused the option otherwise.
pub fn read_option(name: &str, result: &CommandResult) -> (value: Result<Option<TmuxText>, Error>)
    ensures
        if user_option_unset(name@, result@) {
            value == Ok::<Option<TmuxText>, Error>(None)
        } else {
            match error::refusal("show-options"@, result@) {
                Some(failure) => value is Err && value->Err_0@ == failure,
                None => value is Ok && match value->Ok_0 {
                    Some(value) => option_value(result@.stdout) == Some(value@),
                    None => option_value(result@.stdout) is None,
                },
            }
        },
{
    if !result.success() && starts_with(name, "@") && starts_with(
        read_lossy(result.stderr()).as_str(),
        "invalid option: ",
    ) {
        return Ok(None);
    }
    if let Err(failure) = result.require("show-options") {
        return Err(failure);
    }
    if result.stdout().len() == 0 {
        Ok(None)
    } else {
        Ok(Some(read_framed(result.stdout())))
    }
}

/// Read the names of the options that are set.
///
/// # Errors
///
/// Why tmux refused the listing.
pub fn read_option_names(result: &CommandResult) -> (names: Result<Vec<String>, Error>)
    ensures
        match error::refusal("show-options"@, result@) {
            Some(failure) => names is Err && names->Err_0@ == failure,
            None => names is Ok && output::string_views(names->Ok_0@) == names_of(
                output::lines_of(output::lossy_text(result@.stdout)),
            ),
        },
{
    if let Err(failure) = result.require("show-options") {
        return Err(failure);
    }
    Ok(parse_option_names(read_lossy(result.stdout()).as_str()))
}

/// Read the indices that an array option has values at, in tmux's order.
///
/// # Errors
///
/// Why tmux refused the option.
pub fn read_array_indices(name: &str, result: &CommandResult) -> (indices: Result<Vec<u32>, Error>)
    ensures
        match error::refusal("show-options"@, result@) {
            Some(failure) => indices is Err && indices->Err_0@ == failure,
            None => indices is Ok && indices->Ok_0@ == indices_of(
                name@,
                names_of(output::lines_of(output::lossy_text(result@.stdout))),
            ),
        },
{
    let names = match read_option_names(result) {
        Ok(names) => names,
        Err(failure) => return Err(failure),
    };
    let ghost views = output::string_views(names@);
    let mut indices: Vec<u32> = Vec::new();
    let mut position: usize = 0;
    assert(views.take(0) =~= Seq::empty());
    while position < names.len()
        invariant
            position <= names@.len(),
            views == output::string_views(names@),
            indices@ == indices_of(name@, views.take(position as int)),
        decreases names@.len() - position,
    {
        let ghost longer = views.take(position + 1);
        assert(longer.drop_last() =~= views.take(position as int));
        assert(longer.last() == names@[position as int]@);
        if let Some(index) = parse_index(name, names[position].as_str()) {
            indices.push(index);
        }
        position += 1;
    }
    assert(views.take(names@.len() as int) =~= views);
    Ok(indices)
}

/// Read one variable. tmux refuses a name it does not have, which is absence
/// rather than failure.
///
/// # Errors
///
/// Why tmux refused for any other reason.
pub fn read_environment(name: &str, result: &CommandResult) -> (entry: Result<
    Option<EnvironmentEntry>,
    Error,
>)
    ensures
        match variable(name@, result@) {
            Err(failure) => entry is Err && entry->Err_0@ == failure,
            Ok(None) => entry is Ok && entry->Ok_0 is None,
            Ok(Some(view)) => entry is Ok && entry->Ok_0 is Some && entry->Ok_0->0@ == view,
        },
{
    if !result.success() {
        if starts_with(read_lossy(result.stderr()).as_str(), "unknown variable") {
            return Ok(None);
        }
        return Err(Error::from_refused_result("show-environment", result));
    }
    let printed = read_framed(result.stdout());
    Ok(parse_entry(name.as_bytes(), printed.as_bytes()))
}

impl Server {
    /// The command that shows the server option with a name.
    pub fn get_option(&self, name: &str) -> (command: Command)
        ensures
            command@ == on_table(command::called("show-options"@).with_text("-v"@), OptionTable::Server).with_text(
                name@,
            ),
    {
        OptionTable::Server.get_option(name)
    }

    /// The command that sets the server option with a name.
    pub fn set_option(&self, name: &str, value: Vec<u8>) -> (command: Command)
        ensures
            command@ == on_table(command::called("set-option"@), OptionTable::Server).with_text(name@).with_secret(value@),
    {
        OptionTable::Server.set_option(name, value, false)
    }

    /// The command that shows the global session option with a name.
    pub fn get_global_option(&self, name: &str) -> (command: Command)
        ensures
            command@ == on_table(command::called("show-options"@).with_text("-v"@), OptionTable::GlobalSession).with_text(
                name@,
            ),
    {
        OptionTable::GlobalSession.get_option(name)
    }

    /// The command that sets the global session option with a name.
    pub fn set_global_option(&self, name: &str, value: Vec<u8>) -> (command: Command)
        ensures
            command@ == on_table(command::called("set-option"@), OptionTable::GlobalSession).with_text(name@).with_secret(value@),
    {
        OptionTable::GlobalSession.set_option(name, value, false)
    }

    /// The command that shows the global window option with a name.
    pub fn get_global_window_option(&self, name: &str) -> (command: Command)
        ensures
            command@ == on_table(command::called("show-options"@).with_text("-v"@), OptionTable::GlobalWindow).with_text(
                name@,
            ),
    {
        OptionTable::GlobalWindow.get_option(name)
    }

    /// The command that sets the global window option with a name.
    pub fn set_global_window_option(&self, name: &str, value: Vec<u8>) -> (command: Command)
        ensures
            command@ == on_table(command::called("set-option"@), OptionTable::GlobalWindow).with_text(name@).with_secret(value@),
    {
        OptionTable::GlobalWindow.set_option(name, value, false)
    }

    /// The command that lists the server options.
    pub fn option_names(&self) -> (command: Command)
        ensures
            command@ == on_table(command::called("show-options"@), OptionTable::Server),
    {
        OptionTable::Server.option_names()
    }

    /// The command that removes one server option.
    pub fn unset_option(&self, name: &str) -> (command: Command)
        ensures
            command@ == on_table(command::called("set-option"@), OptionTable::Server).with_text(
                "-u"@,
            ).with_text(name@),
    {
        OptionTable::Server.unset_option(name)
    }

    /// The command that writes one index of an array option, leaving the others
    /// alone. What is known of the option picks its table.
    pub fn set_array_option(
        &self,
        name: &str,
        scopes: Option<&Vec<OptionScope>>,
        index: u32,
        value: Vec<u8>,
    ) -> (command: Command)
        ensures
            command@ == on_table(command::called("set-option"@), array_table(scopes_view(scopes))).with_text(
                indexed(name@, index),
            ).with_secret(value@),
    {
        array_scope(scopes).set_option(index_name(name, index).as_str(), value, false)
    }

    /// The command that extends the value at one index of an array option.
    pub fn append_array_option(
        &self,
        name: &str,
        scopes: Option<&Vec<OptionScope>>,
        index: u32,
        value: Vec<u8>,
    ) -> (command: Command)
        ensures
            command@ == on_table(command::called("set-option"@), array_table(scopes_view(scopes))).with_text("-a"@).with_text(
                indexed(name@, index),
            ).with_secret(value@),
    {
        array_scope(scopes).set_option(index_name(name, index).as_str(), value, true)
    }

    /// The command that removes one index of an array option, leaving a gap
    /// where it was.
    pub fn unset_array_option(&self, name: &str, scopes: Option<&Vec<OptionScope>>, index: u32) -> (
    command: Command)
        ensures
            command@ == on_table(
                command::called("set-option"@),
                array_table(scopes_view(scopes)),
            ).with_text("-u"@).with_text(indexed(name@, index)),
    {
        array_scope(scopes).unset_option(index_name(name, index).as_str())
    }

    /// The command that lists the indices of an array option. What is known of
    /// the option picks its table.
    pub fn array_option(&self, name: &str, scopes: Option<&Vec<OptionScope>>) -> (command: Command)
        ensures
            command@ == on_table(
                command::called("show-options"@),
                array_table(scopes_view(scopes)),
            ).with_text(name@),
    {
        add_table(Command::new("show-options"), &array_scope(scopes)).text(name)
    }

    /// The command that shows the value at one index of an array option.
    pub fn array_entry(&self, name: &str, scopes: Option<&Vec<OptionScope>>, index: u32) -> (
    command: Command)
        ensures
            command@ == on_table(
                command::called("show-options"@).with_text("-v"@),
                array_table(scopes_view(scopes)),
            ).with_text(indexed(name@, index)),
    {
        array_scope(scopes).get_option(index_name(name, index).as_str())
    }

    /// The command that sets one global hook.
    pub fn write_hook(&self, name: &str, hook: Vec<u8>) -> (command: Command)
        ensures
            command@ == on_table(
                command::called("set-hook"@),
                OptionTable::GlobalSession,
            ).with_text(name@).with(hook@),
    {
        OptionTable::GlobalSession.write_hook(name, hook)
    }

    /// The command that removes one global hook.
    pub fn unset_hook(&self, name: &str) -> (command: Command)
        ensures
            command@ == on_table(
                command::called("set-hook"@),
                OptionTable::GlobalSession,
            ).with_text("-u"@).with_text(name@),
    {
        OptionTable::GlobalSession.unset_hook(name)
    }

    /// The commands that write a whole global hook, to be sent as one
    /// invocation.
    pub fn write_hooks(&self, name: &str, hooks: &Vec<HookEntry>, replace: ReplaceMode) -> (chain:
        Vec<Command>)
        ensures
            command_views(chain@) == hook_written(
                OptionTable::GlobalSession,
                name@,
                hook_views(hooks@),
                replace,
            ),
    {
        OptionTable::GlobalSession.write_hooks(name, hooks, replace)
    }

    /// The command that sets a variable in the server's own environment. The
    /// value is sensitive.
    pub fn set_environment(&self, name: &str, value: Vec<u8>) -> (command: Command)
        ensures
            command@ == on_environment(command::called("set-environment"@), EnvironmentTable::Global).with_text(
                name@,
            ).with_secret(value@),
    {
        EnvironmentTable::Global.set_environment(name, value)
    }

    /// The command that shows a variable of the server's environment.
    pub fn environment(&self, name: &str) -> (command: Command)
        ensures
            command@ == on_environment(command::called("show-environment"@), EnvironmentTable::Global).with_text(
                name@,
            ),
    {
        EnvironmentTable::Global.environment(name)
    }

    /// The command that hides a variable from processes tmux starts.
    pub fn hide_environment(&self, name: &str) -> (command: Command)
        ensures
            command@ == on_environment(command::called("set-environment"@), EnvironmentTable::Global).with_text(
                "-r"@,
            ).with_text(name@),
    {
        EnvironmentTable::Global.hide_environment(name)
    }

    /// The command that removes a variable from the server's environment.
    pub fn unset_environment(&self, name: &str) -> (command: Command)
        ensures
            command@ == on_environment(command::called("set-environment"@), EnvironmentTable::Global).with_text(
                "-u"@,
            ).with_text(name@),
    {
        EnvironmentTable::Global.unset_environment(name)
    }
}

/// What is known of an option, in contracts.
pub open spec fn scopes_view(scopes: Option<&Vec<OptionScope>>) -> Option<Seq<OptionScope>> {
    match scopes {
        Some(scopes) => Some(scopes@),
        None => None,
    }
}

/// An array option is kept in the server's table where it can be set on the
/// server, among the defaults of windows where it can be set on a window, and
/// among those of sessions otherwise.
pub proof fn law_array_options_have_a_table(scopes: Seq<OptionScope>)
    ensures
        array_table(Some(scopes)) is Server <==> scopes.contains(OptionScope::Server),
        array_table(Some(scopes)) is GlobalWindow <==> scopes.contains(OptionScope::Window)
            && !scopes.contains(OptionScope::Server),
        array_table(Some(scopes)) is GlobalSession <==> !scopes.contains(OptionScope::Window)
            && !scopes.contains(OptionScope::Server),
        array_table(None) is GlobalSession,
{
}

/// An option is kept elsewhere exactly where its scopes are known and the
/// table's is none of them. The server's table holds what can be set on the
/// server, the tables of sessions what can be set on a session, and the default
/// of windows what can be set on a window.
pub proof fn law_options_are_kept_by_scope(scopes: Seq<OptionScope>, session: SessionId)
    ensures
        kept_elsewhere(OptionTable::Server, Some(scopes)) <==> !scopes.contains(
            OptionScope::Server,
        ),
        kept_elsewhere(OptionTable::GlobalSession, Some(scopes)) <==> !scopes.contains(
            OptionScope::Session,
        ),
        kept_elsewhere(OptionTable::Session(session), Some(scopes)) <==> !scopes.contains(
            OptionScope::Session,
        ),
        kept_elsewhere(OptionTable::GlobalWindow, Some(scopes)) <==> !scopes.contains(
            OptionScope::Window,
        ),
        !kept_elsewhere(OptionTable::Server, None),
        !kept_elsewhere(OptionTable::GlobalSession, None),
        !kept_elsewhere(OptionTable::Session(session), None),
        !kept_elsewhere(OptionTable::GlobalWindow, None),
{
}

/// The words that address a table stand behind what a command holds: `-s` for
/// the server's, `-g` for the default of sessions, `-g -w` for that of windows,
/// and `-t` and its identity for a session's. An environment is addressed in
/// the same way, but for the server's, which is the global one.
pub proof fn law_tables_are_addressed(command: command::CommandV, session: SessionId)
    ensures
        ({
            let start = command.arguments;
            let count = start.len() as int;
            let server = on_table(command, OptionTable::Server).arguments;
            let sessions = on_table(command, OptionTable::GlobalSession).arguments;
            let windows = on_table(command, OptionTable::GlobalWindow).arguments;
            let one = on_table(command, OptionTable::Session(session)).arguments;
            let global = on_environment(command, EnvironmentTable::Global).arguments;
            let own = on_environment(command, EnvironmentTable::Session(session)).arguments;
            &&& server.len() == count + 1 && sessions.len() == count + 1 && windows.len() == count
                + 2 && one.len() == count + 2
            &&& server.take(count) == start && sessions.take(count) == start && windows.take(count)
                == start && one.take(count) == start
            &&& server[count].bytes == encode_utf8("-s"@)
            &&& sessions[count].bytes == encode_utf8("-g"@)
            &&& windows[count].bytes == encode_utf8("-g"@)
            &&& windows[count + 1].bytes == encode_utf8("-w"@)
            &&& one[count].bytes == encode_utf8("-t"@)
            &&& one[count + 1].bytes == encode_utf8(target::id_text('$', session@))
            &&& global == sessions
            &&& own == one
        }),
{
    let start = command.arguments;
    let count = start.len() as int;
    assert(on_table(command, OptionTable::Server).arguments.take(count) =~= start);
    assert(on_table(command, OptionTable::GlobalSession).arguments.take(count) =~= start);
    assert(on_table(command, OptionTable::GlobalWindow).arguments.take(count) =~= start);
    assert(on_table(command, OptionTable::Session(session)).arguments.take(count) =~= start);
}

/// The name of an index is the name of the option and the index in brackets,
/// and a name has an index exactly where it is one of those.
pub proof fn law_indices_stand_in_brackets(name: Seq<char>, index: u32, written: Seq<char>)
    ensures
        indexed(name, index) == name + seq!['['] + decimal::decimal(index as nat) + seq![']'],
        index_in(name, written) == Some(index) <==> written == name + seq!['['] + decimal::decimal(
            index as nat,
        ) + seq![']'],
{
    reveal_strlit("[");
    reveal_strlit("]");
    assert("["@ =~= seq!['[']);
    assert("]"@ =~= seq![']']);
    law_indices_are_read_back(name, index);
}

/// The indices of an array option are those of the names that have one, in the
/// order of the names.
pub proof fn law_indices_follow_their_names(name: Seq<char>, names: Seq<Seq<char>>)
    ensures
        indices_of(name, names) == names.filter(
            |written: Seq<char>| index_in(name, written) is Some,
        ).map_values(|written: Seq<char>| index_in(name, written)->0),
    decreases names.len(),
{
    let keep = |written: Seq<char>| index_in(name, written) is Some;
    let read = |written: Seq<char>| index_in(name, written)->0;
    text::lemma_kept_values(names, keep, read);
    if names.len() > 0 {
        law_indices_follow_their_names(name, names.drop_last());
    }
}

/// A hook is written by one command for each of its entries, in their order:
/// the entry's index and its command behind the words of the table. Where it is
/// replaced, a command that clears it stands in front.
pub proof fn law_hooks_are_written_entry_by_entry(
    table: OptionTable,
    name: Seq<char>,
    hooks: Seq<HookV>,
)
    ensures
        ({
            let merged = hook_written(table, name, hooks, ReplaceMode::Merge);
            let replaced = hook_written(table, name, hooks, ReplaceMode::Replace);
            let addressed = on_table(command::called("set-hook"@), table);
            &&& merged.len() == hooks.len()
            &&& forall|i: int|
                0 <= i < hooks.len() ==> #[trigger] merged[i] == (command::CommandV {
                    name: "set-hook"@,
                    arguments: addressed.arguments + seq![
                        command::ArgumentV {
                            bytes: encode_utf8(indexed(name, hooks[i].index)),
                            sensitive: false,
                        },
                        command::ArgumentV { bytes: hooks[i].command, sensitive: false },
                    ],
                })
            &&& replaced == seq![
                command::CommandV {
                    name: "set-hook"@,
                    arguments: addressed.arguments + seq![
                        command::ArgumentV { bytes: encode_utf8("-u"@), sensitive: false },
                        command::ArgumentV { bytes: encode_utf8(name), sensitive: false },
                    ],
                },
            ] + merged
        }),
{
    let merged = hook_written(table, name, hooks, ReplaceMode::Merge);
    let addressed = on_table(command::called("set-hook"@), table);
    lemma_entries_written(table, name, hooks);
    assert(merged =~= entries_written(table, name, hooks));
    assert(addressed.with_text("-u"@).with_text(name).arguments =~= addressed.arguments + seq![
        command::ArgumentV { bytes: encode_utf8("-u"@), sensitive: false },
        command::ArgumentV { bytes: encode_utf8(name), sensitive: false },
    ]);
}

proof fn lemma_entries_written(table: OptionTable, name: Seq<char>, hooks: Seq<HookV>)
    ensures
        entries_written(table, name, hooks).len() == hooks.len(),
        forall|i: int|
            0 <= i < hooks.len() ==> #[trigger] entries_written(table, name, hooks)[i] == (
            command::CommandV {
                name: "set-hook"@,
                arguments: on_table(command::called("set-hook"@), table).arguments + seq![
                    command::ArgumentV {
                        bytes: encode_utf8(indexed(name, hooks[i].index)),
                        sensitive: false,
                    },
                    command::ArgumentV { bytes: hooks[i].command, sensitive: false },
                ],
            }),
    decreases hooks.len(),
{
    if hooks.len() > 0 {
        let head = hooks.drop_last();
        let last = hooks.last();
        lemma_entries_written(table, name, head);
        let addressed = on_table(command::called("set-hook"@), table);
        assert(addressed.with_text(indexed(name, last.index)).with(last.command).arguments
            =~= addressed.arguments + seq![
            command::ArgumentV {
                bytes: encode_utf8(indexed(name, last.index)),
                sensitive: false,
            },
            command::ArgumentV { bytes: last.command, sensitive: false },
        ]);
        assert forall|i: int| 0 <= i < head.len() implies #[trigger] entries_written(
            table,
            name,
            hooks,
        )[i] == entries_written(table, name, head)[i] by {}
    }
}

/// What tmux printed of a variable is its value exactly where it is the name,
/// an equals sign and the value, and a mark exactly where it is the name behind
/// a dash.
pub proof fn law_printed_variables_are_values_or_marks(
    name: Seq<u8>,
    printed: Seq<u8>,
    value: Seq<u8>,
)
    ensures
        entry_of(name, printed) == Some(EntryV::Value(value)) <==> printed == name + seq![61u8]
            + value,
        entry_of(name, printed) == Some(EntryV::Removed) <==> printed == seq![45u8] + name,
{
    law_environment_values_are_read_back(name, value);
    if entry_of(name, printed) == Some(EntryV::Value(value)) {
        let start = name + seq![61u8];
        assert(printed =~= printed.subrange(0, start.len() as int) + printed.skip(
            (name.len() + 1) as int,
        ));
    }
}

/// A variable that tmux holds is read from what it printed, one that it says it
/// does not know has no entry, and any other refusal is reported.
pub proof fn law_unknown_variables_have_no_entry(name: Seq<char>, result: command::ResultV)
    ensures
        result.accepted() ==> variable(name, result) == Ok::<Option<EntryV>, error::ErrorV>(
            entry_of(encode_utf8(name), output::unframed(result.stdout)),
        ),
        ({
            let said = output::lossy_text(result.stderr);
            let unknown = "unknown variable"@;
            let is_unknown = said.len() >= unknown.len() && said.take(unknown.len() as int)
                == unknown;
            &&& !result.accepted() && is_unknown ==> variable(name, result) == Ok::<
                Option<EntryV>,
                error::ErrorV,
            >(None)
            &&& !result.accepted() && !is_unknown ==> variable(name, result) == Err::<
                Option<EntryV>,
                error::ErrorV,
            >(error::refused("show-environment"@, result))
        }),
{
    let said = output::lossy_text(result.stderr);
    let unknown = "unknown variable"@;
    if said.len() >= unknown.len() {
        assert(said.take(unknown.len() as int) =~= said.subrange(0, unknown.len() as int));
    }
}

/// The name of an option is what stands in front of the first space of its
/// line, or the whole line where there is none.
pub proof fn law_option_names_end_at_a_space(
    name: Seq<char>,
    value: Seq<char>,
    lines: Seq<Seq<char>>,
)
    requires
        !name.contains(' '),
    ensures
        first_word(name) == name,
        first_word(name + seq![' '] + value) == name,
        names_of(lines).len() == lines.len(),
        forall|i: int| 0 <= i < lines.len() ==> #[trigger] names_of(lines)[i] == first_word(lines[i]),
    decreases name.len(),
{
    let line = name + seq![' '] + value;
    if name.len() > 0 {
        assert(name.contains(name[0]));
        let rest = name.skip(1);
        assert forall|i: int| 0 <= i < rest.len() implies rest[i] != ' ' by {
            assert(rest[i] == name[i + 1]);
            assert(name.contains(name[i + 1]));
        }
        law_option_names_end_at_a_space(rest, value, lines);
        assert(line.skip(1) =~= rest + seq![' '] + value);
        assert(line[0] == name[0]);
        assert(seq![name[0]] + rest =~= name);
    } else {
        assert(line[0] == ' ');
        assert(first_word(name) =~= name);
    }
}

/// An option that tmux printed nothing of has no value, and the value of
/// another is what it printed without the line feed that frames it.
pub proof fn law_printed_options_have_a_value(value: Seq<u8>)
    ensures
        option_value(Seq::empty()) is None,
        option_value(value.push(10)) == Some(value),
        value.len() > 0 && value.last() != 10 ==> option_value(value) == Some(value),
{
    assert(value.push(10).drop_last() =~= value);
}

/// The options that are kept are those of the answers with a value, each with
/// its name and value and in the order of the answers.
pub proof fn law_answers_with_a_value_are_kept(answers: Seq<OptionAnswerV>)
    ensures
        valued(answers) == answers.filter(
            |answer: OptionAnswerV| answer.value is Some,
        ).map_values(
            |answer: OptionAnswerV| NamedOptionV { name: answer.name, value: answer.value->0 },
        ),
    decreases answers.len(),
{
    let keep = |answer: OptionAnswerV| answer.value is Some;
    let read = |answer: OptionAnswerV| NamedOptionV { name: answer.name, value: answer.value->0 };
    text::lemma_kept_values(answers, keep, read);
    if answers.len() > 0 {
        law_answers_with_a_value_are_kept(answers.drop_last());
    }
}

/// A refusal says that a user option is not set exactly where the name starts
/// with an at sign and what tmux said starts with its words for it.
pub proof fn law_unset_user_options(name: Seq<char>, result: command::ResultV)
    ensures
        user_option_unset(name, result) <==> {
            let said = output::lossy_text(result.stderr);
            let words = "invalid option: "@;
            &&& !result.accepted()
            &&& name.len() > 0 && name[0] == '@'
            &&& said.len() >= words.len() && said.take(words.len() as int) == words
        },
{
    reveal_strlit("@");
    let said = output::lossy_text(result.stderr);
    let words = "invalid option: "@;
    if said.len() >= words.len() {
        assert(said.take(words.len() as int) =~= said.subrange(0, words.len() as int));
    }
    if name.len() > 0 {
        assert(name.subrange(0, 1) =~= seq![name[0]]);
        assert("@"@ =~= seq!['@']);
        assert(seq![name[0]][0] == name[0]);
    }
}

} // verus!
