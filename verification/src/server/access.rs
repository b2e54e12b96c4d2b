//! The server's access list and the histories of its prompts.

use vstd::prelude::*;
use vstd::string::*;
use vstd::utf8::*;

use crate::command;
use crate::command::text_bytes;
use crate::command::Command;
use crate::command::CommandResult;
use crate::error;
use crate::error::Error;
use crate::output;
use crate::output::lines;
use crate::output::read_lossy;
use crate::server::lifecycle;
use crate::server::lifecycle::behind;
use crate::server::Server;
use crate::text;
use crate::text::starts_with;
use crate::text::str_eq;
use crate::text::to_chars;
use crate::text::TmuxText;
use crate::version::TmuxVersion;

verus! {

/// How much a user on the server's access list may do.
#[derive(Clone, Copy, Debug, PartialEq, Eq, Structural)]
pub enum AccessMode {
    /// May attach and watch, but not act.
    ReadOnly,
    /// May attach and act.
    Write,
}

/// One entry of the server's access list.
pub struct AccessRule {
    user: String,
    mode: AccessMode,
}

/// One entry of the server's access list, in contracts.
#[verifier::ext_equal]
pub ghost struct RuleV {
    pub user: Seq<char>,
    pub mode: AccessMode,
}

impl AccessRule {
    /// The entry in contracts.
    pub closed spec fn view(&self) -> RuleV {
        RuleV { user: self.user@, mode: self.mode }
    }

    /// The user this entry names.
    pub fn user(&self) -> (user: &str)
        ensures
            user@ == self@.user,
    {
        self.user.as_str()
    }

    /// What that user may do.
    pub fn mode(&self) -> (mode: AccessMode)
        ensures
            mode == self@.mode,
    {
        self.mode
    }
}

/// The entries of a list in contracts.
pub open spec fn rule_views(rules: Seq<AccessRule>) -> Seq<RuleV> {
    rules.map_values(|rule: AccessRule| rule@)
}

/// The mode that a flag stands for.
pub open spec fn mode_of(flag: Seq<char>) -> Option<AccessMode> {
    if flag == "(R)"@ {
        Some(AccessMode::ReadOnly)
    } else if flag == "(W)"@ {
        Some(AccessMode::Write)
    } else {
        None
    }
}

/// The position of the last space.
pub open spec fn last_space(line: Seq<char>) -> Option<int>
    decreases line.len(),
{
    if line.len() == 0 {
        None
    } else if line.last() == ' ' {
        Some(line.len() - 1)
    } else {
        last_space(line.drop_last())
    }
}

/// The entry that a line holds: a user, a space and a flag. The line is split
/// from the right, because a user's name may hold spaces.
pub open spec fn rule_of(line: Seq<char>) -> Option<RuleV> {
    match last_space(line) {
        None => None,
        Some(at) => match mode_of(line.skip(at + 1)) {
            None => None,
            Some(mode) => Some(RuleV { user: line.take(at), mode }),
        },
    }
}

/// The entries that lines hold. A line that holds none is passed over.
pub open spec fn rules_of(lines: Seq<Seq<char>>) -> Seq<RuleV>
    decreases lines.len(),
{
    if lines.len() == 0 {
        Seq::empty()
    } else {
        let earlier = rules_of(lines.drop_last());
        match rule_of(lines.last()) {
            None => earlier,
            Some(rule) => earlier.push(rule),
        }
    }
}

/// Read the entry that a line holds.
fn parse_rule(line: &str) -> (rule: Option<AccessRule>)
    ensures
        match rule {
            Some(rule) => rule_of(line@) == Some(rule@),
            None => rule_of(line@) is None,
        },
{
    let chars = to_chars(line);
    let mut end: usize = chars.len();
    assert(line@.take(end as int) =~= line@);
    while end > 0 && chars[end - 1] != ' '
        invariant
            end <= chars@.len(),
            chars@ == line@,
            last_space(line@) == last_space(line@.take(end as int)),
        decreases end,
    {
        assert(line@.take(end as int).drop_last() =~= line@.take(end - 1));
        end -= 1;
    }
    if end == 0 {
        assert(line@.take(0) =~= Seq::empty());
        return None;
    }
    assert(line@.take(end as int).last() == ' ');
    let flag = line.substring_char(end, chars.len());
    let user = line.substring_char(0, end - 1);
    assert(flag@ =~= line@.skip(end as int));
    assert(user@ =~= line@.take(end - 1));
    if str_eq(flag, "(R)") {
        Some(AccessRule { user: user.to_owned(), mode: AccessMode::ReadOnly })
    } else if str_eq(flag, "(W)") {
        Some(AccessRule { user: user.to_owned(), mode: AccessMode::Write })
    } else {
        None
    }
}

/// Read an access list.
pub fn parse_access_rules(listing: &str) -> (rules: Vec<AccessRule>)
    ensures
        rule_views(rules@) == rules_of(output::lines_of(listing@)),
{
    let lines = lines(listing);
    let ghost views = text::slices(lines@);
    let mut rules: Vec<AccessRule> = Vec::new();
    let mut index: usize = 0;
    assert(views.take(0) =~= Seq::empty());
    assert(rule_views(rules@) =~= Seq::empty());
    while index < lines.len()
        invariant
            index <= lines@.len(),
            views == text::slices(lines@),
            rule_views(rules@) == rules_of(views.take(index as int)),
        decreases lines@.len() - index,
    {
        let ghost longer = views.take(index + 1);
        assert(longer.drop_last() =~= views.take(index as int));
        assert(longer.last() == lines@[index as int]@);
        if let Some(rule) = parse_rule(lines[index]) {
            let ghost before = rule_views(rules@);
            rules.push(rule);
            assert(rule_views(rules@) =~= before.push(rule@));
        }
        index += 1;
    }
    assert(views.take(lines@.len() as int) =~= views);
    rules
}

/// An entry as tmux writes it is read back, whatever the user is called.
pub proof fn law_access_rules_are_read_back(user: Seq<char>, mode: AccessMode)
    ensures
        rule_of(
            user + seq![' '] + match mode {
                AccessMode::ReadOnly => "(R)"@,
                AccessMode::Write => "(W)"@,
            },
        ) == Some(RuleV { user, mode }),
{
    reveal_strlit("(R)");
    reveal_strlit("(W)");
    let flag = match mode {
        AccessMode::ReadOnly => "(R)"@,
        AccessMode::Write => "(W)"@,
    };
    let line = user + seq![' '] + flag;
    assert(flag.len() == 3);
    assert(line.drop_last().drop_last().drop_last() =~= user + seq![' ']);
    assert(line.last() == ')');
    assert(line.drop_last().last() == flag[1]);
    assert(line.drop_last().drop_last().last() == '(');
    assert(last_space(user + seq![' ']) == Some(user.len() as int));
    assert(last_space(line.drop_last().drop_last()) == Some(user.len() as int));
    assert(last_space(line.drop_last()) == Some(user.len() as int));
    assert(last_space(line) == Some(user.len() as int));
    assert(line.skip((user.len() + 1) as int) =~= flag);
    assert(line.take(user.len() as int) =~= user);
    assert("(R)"@[1] != "(W)"@[1]);
}

/// Which prompt tmux is remembering answers for.
#[derive(Clone, Copy, Debug, PartialEq, Eq, Structural)]
pub enum PromptKind {
    /// The `:` command prompt.
    Command,
    /// The search prompt in copy mode.
    Search,
    /// A prompt asking for a target.
    Target,
    /// A prompt asking for a window target.
    WindowTarget,
}

impl PromptKind {
    /// The name tmux knows this prompt by, in contracts.
    pub open spec fn spelling(self) -> Seq<char> {
        match self {
            PromptKind::Command => "command"@,
            PromptKind::Search => "search"@,
            PromptKind::Target => "target"@,
            PromptKind::WindowTarget => "window-target"@,
        }
    }

    /// The name tmux knows this prompt by.
    pub fn name(self) -> (name: &'static str)
        ensures
            name@ == self.spelling(),
    {
        match self {
            PromptKind::Command => "command",
            PromptKind::Search => "search",
            PromptKind::Target => "target",
            PromptKind::WindowTarget => "window-target",
        }
    }
}

/// Whether a line heads the entries of a prompt.
pub open spec fn heads(line: Seq<char>) -> bool {
    "History for "@.is_prefix_of(line)
}

/// The lines behind the headers at the front.
pub open spec fn behind_headers(lines: Seq<Seq<char>>) -> Seq<Seq<char>>
    decreases lines.len(),
{
    if lines.len() > 0 && heads(lines[0]) {
        behind_headers(lines.skip(1))
    } else {
        lines
    }
}

/// The bytes of the lines that are not empty.
pub open spec fn written(lines: Seq<Seq<char>>) -> Seq<Seq<u8>>
    decreases lines.len(),
{
    if lines.len() == 0 {
        Seq::empty()
    } else {
        let earlier = written(lines.drop_last());
        if lines.last().len() == 0 {
            earlier
        } else {
            earlier.push(encode_utf8(lines.last()))
        }
    }
}

/// The entries of a prompt's history.
pub open spec fn entries_of(listing: Seq<char>) -> Seq<Seq<u8>> {
    written(behind_headers(output::lines_of(listing)))
}

/// Read the entries of a prompt's history.
pub fn parse_prompt_history(listing: &str) -> (entries: Vec<TmuxText>)
    ensures
        output::text_views(entries@) == entries_of(listing@),
{
    let lines = lines(listing);
    let ghost views = text::slices(lines@);
    let mut start: usize = 0;
    assert(views.skip(0) =~= views);
    while start < lines.len() && starts_with(lines[start], "History for ")
        invariant
            start <= lines@.len(),
            views == text::slices(lines@),
            behind_headers(views) == behind_headers(views.skip(start as int)),
        decreases lines@.len() - start,
    {
        assert(views.skip(start as int)[0] == lines@[start as int]@);
        assert(views.skip(start as int).skip(1) =~= views.skip(start + 1));
        start += 1;
    }
    let ghost kept = views.skip(start as int);
    proof {
        if start < lines@.len() {
            assert(kept[0] == lines@[start as int]@);
        }
    }
    let mut entries: Vec<TmuxText> = Vec::new();
    let mut index: usize = start;
    assert(kept.take(0) =~= Seq::empty());
    assert(output::text_views(entries@) =~= Seq::empty());
    while index < lines.len()
        invariant
            start <= index <= lines@.len(),
            views == text::slices(lines@),
            kept == views.skip(start as int),
            output::text_views(entries@) == written(kept.take(index - start)),
        decreases lines@.len() - index,
    {
        let ghost longer = kept.take(index - start + 1);
        assert(longer.drop_last() =~= kept.take(index - start));
        assert(longer.last() == lines@[index as int]@);
        let line = lines[index];
        if !str_eq(line, "") {
            proof {
                reveal_strlit("");
                if line@.len() == 0 {
                    assert(line@ =~= ""@);
                }
            }
            let ghost before = output::text_views(entries@);
            let entry = TmuxText::from_bytes(text_bytes(line));
            entries.push(entry);
            assert(output::text_views(entries@) =~= before.push(entry@));
        } else {
            proof {
                reveal_strlit("");
            }
        }
        index += 1;
    }
    assert(kept.take(kept.len() as int) =~= kept);
    entries
}

impl Server {
    /// The command that lists the users on the server's access list.
    ///
    /// # Errors
    ///
    /// The reason of [`Server::require_access_list`].
    pub fn access_rules(&self, found: &TmuxVersion) -> (command: Result<Command, Error>)
        ensures
            lifecycle::gated(
                command,
                lifecycle::without_access_list(*found),
                command::called("server-access"@).with_text("-l"@),
            ),
    {
        behind(
            Server::require_access_list(found),
            Command::new("server-access").text("-l"),
        )
    }

    /// Read the server's access list.
    ///
    /// # Errors
    ///
    /// Why tmux refused the listing.
    pub fn read_access_rules(result: &CommandResult) -> (rules: Result<Vec<AccessRule>, Error>)
        ensures
            match error::refusal("server-access"@, result@) {
                Some(failure) => rules is Err && rules->Err_0@ == failure,
                None => rules is Ok && rule_views(rules->Ok_0@) == rules_of(
                    output::lines_of(output::lossy_text(result@.stdout)),
                ),
            },
    {
        if let Err(failure) = result.require("server-access") {
            return Err(failure);
        }
        Ok(parse_access_rules(read_lossy(result.stdout()).as_str()))
    }

    /// The command that lets a user attach to the server.
    ///
    /// # Errors
    ///
    /// The reason of [`Server::require_access_list`].
    pub fn grant_access(
        &self,
        found: &TmuxVersion,
        user: &str,
        mode: AccessMode,
    ) -> (command: Result<Command, Error>)
        ensures
            lifecycle::gated(
                command,
                lifecycle::without_access_list(*found),
                command::called("server-access"@).with_text("-a"@).with_text(
                    match mode {
                        AccessMode::ReadOnly => "-r"@,
                        AccessMode::Write => "-w"@,
                    },
                ).with_text(user@),
            ),
    {
        behind(
            Server::require_access_list(found),
            Command::new("server-access").text("-a").text(
                match mode {
                    AccessMode::ReadOnly => "-r",
                    AccessMode::Write => "-w",
                },
            ).text(user),
        )
    }

    /// The command that stops a user attaching to the server.
    ///
    /// # Errors
    ///
    /// The reason of [`Server::require_access_list`].
    pub fn revoke_access(
        &self,
        found: &TmuxVersion,
        user: &str,
    ) -> (command: Result<Command, Error>)
        ensures
            lifecycle::gated(
                command,
                lifecycle::without_access_list(*found),
                command::called("server-access"@).with_text("-d"@).with_text(user@),
            ),
    {
        behind(
            Server::require_access_list(found),
            Command::new("server-access").text("-d").text(user),
        )
    }

    /// The command that lists the entries tmux remembers for one kind of
    /// prompt.
    ///
    /// # Errors
    ///
    /// The reason of [`Server::require_prompt_history`].
    pub fn prompt_history(
        &self,
        found: &TmuxVersion,
        kind: PromptKind,
    ) -> (command: Result<Command, Error>)
        ensures
            lifecycle::gated(
                command,
                lifecycle::without_prompt_history(*found),
                command::called("show-prompt-history"@).with_text("-T"@).with_text(
                    kind.spelling(),
                ),
            ),
    {
        behind(
            Server::require_prompt_history(found),
            Command::new("show-prompt-history").text("-T").text(kind.name()),
        )
    }

    /// Read the entries tmux remembers for one kind of prompt. The header of
    /// the listing is framing rather than an entry.
    ///
    /// # Errors
    ///
    /// Why tmux refused the listing.
    pub fn read_prompt_history(result: &CommandResult) -> (entries: Result<Vec<TmuxText>, Error>)
        ensures
            match error::refusal("show-prompt-history"@, result@) {
                Some(failure) => entries is Err && entries->Err_0@ == failure,
                None => entries is Ok && output::text_views(entries->Ok_0@) == entries_of(
                    output::lossy_text(result@.stdout),
                ),
            },
    {
        if let Err(failure) = result.require("show-prompt-history") {
            return Err(failure);
        }
        Ok(parse_prompt_history(read_lossy(result.stdout()).as_str()))
    }

    /// The command that forgets the entries of every prompt.
    ///
    /// # Errors
    ///
    /// The reason of [`Server::require_prompt_history`].
    pub fn clear_prompt_history(&self, found: &TmuxVersion) -> (command: Result<Command, Error>)
        ensures
            lifecycle::gated(
                command,
                lifecycle::without_prompt_history(*found),
                command::called("clear-prompt-history"@),
            ),
    {
        behind(
            Server::require_prompt_history(found),
            Command::new("clear-prompt-history"),
        )
    }
}

/// The flag of a mode, as tmux writes it.
pub open spec fn flag_of(mode: AccessMode) -> Seq<char> {
    match mode {
        AccessMode::ReadOnly => "(R)"@,
        AccessMode::Write => "(W)"@,
    }
}

/// A line is an entry exactly where it is a user, a space and the flag of a
/// mode.
pub proof fn law_entries_are_a_user_and_a_flag(line: Seq<char>, rule: RuleV)
    ensures
        rule_of(line) == Some(rule) <==> line == rule.user + seq![' '] + flag_of(rule.mode),
{
    law_access_rules_are_read_back(rule.user, rule.mode);
    lemma_last_space(line);
    if rule_of(line) == Some(rule) {
        let at = last_space(line)->0;
        assert(line =~= line.take(at) + seq![' '] + line.skip(at + 1));
    }
}

proof fn lemma_last_space(line: Seq<char>)
    ensures
        last_space(line) matches Some(at) ==> 0 <= at < line.len() && line[at] == ' ',
    decreases line.len(),
{
    if line.len() > 0 && line.last() != ' ' {
        lemma_last_space(line.drop_last());
    }
}

/// The entries of a listing are those of its lines that are entries, in their
/// order and as often as they are listed.
pub proof fn law_entries_follow_their_lines(lines: Seq<Seq<char>>)
    ensures
        rules_of(lines) == lines.filter(|line: Seq<char>| rule_of(line) is Some).map_values(
            |line: Seq<char>| rule_of(line)->0,
        ),
    decreases lines.len(),
{
    let keep = |line: Seq<char>| rule_of(line) is Some;
    let read = |line: Seq<char>| rule_of(line)->0;
    text::lemma_kept_values(lines, keep, read);
    if lines.len() > 0 {
        law_entries_follow_their_lines(lines.drop_last());
    }
}

/// The headers in front of a history are dropped and nothing behind them is,
/// not even what looks like a header.
pub proof fn law_headers_stand_in_front(headers: Seq<Seq<char>>, lines: Seq<Seq<char>>)
    requires
        forall|i: int| 0 <= i < headers.len() ==> heads(#[trigger] headers[i]),
        lines.len() > 0 ==> !heads(lines[0]),
    ensures
        behind_headers(headers + lines) == lines,
    decreases headers.len(),
{
    let all = headers + lines;
    if headers.len() > 0 {
        assert(all[0] == headers[0]);
        let rest = headers.skip(1);
        assert forall|i: int| 0 <= i < rest.len() implies heads(#[trigger] rest[i]) by {
            assert(rest[i] == headers[i + 1]);
        }
        law_headers_stand_in_front(rest, lines);
        assert(all.skip(1) =~= rest + lines);
    } else {
        assert(all =~= lines);
    }
}

/// A line heads a history exactly where it starts with the words that tmux
/// heads one with.
pub proof fn law_headers_are_announced(line: Seq<char>)
    ensures
        heads(line) <==> line.len() >= "History for "@.len() && line.take(
            "History for "@.len() as int,
        ) == "History for "@,
{
    let words = "History for "@;
    if line.len() >= words.len() {
        assert(line.take(words.len() as int) =~= line.subrange(0, words.len() as int));
    }
}

/// The entries of a history are its lines that are not empty, in their order.
pub proof fn law_histories_keep_what_was_written(lines: Seq<Seq<char>>, listing: Seq<char>)
    ensures
        written(lines) == lines.filter(|line: Seq<char>| line.len() > 0).map_values(
            |line: Seq<char>| encode_utf8(line),
        ),
        entries_of(listing) == behind_headers(output::lines_of(listing)).filter(
            |line: Seq<char>| line.len() > 0,
        ).map_values(|line: Seq<char>| encode_utf8(line)),
{
    lemma_written(lines);
    lemma_written(behind_headers(output::lines_of(listing)));
}

proof fn lemma_written(lines: Seq<Seq<char>>)
    ensures
        written(lines) == lines.filter(|line: Seq<char>| line.len() > 0).map_values(
            |line: Seq<char>| encode_utf8(line),
        ),
    decreases lines.len(),
{
    let keep = |line: Seq<char>| line.len() > 0;
    let read = |line: Seq<char>| encode_utf8(line);
    text::lemma_kept_values(lines, keep, read);
    if lines.len() > 0 {
        lemma_written(lines.drop_last());
    }
}

/// Each history is asked for by its own name.
pub proof fn law_histories_have_names(kind: PromptKind)
    ensures
        kind is Command ==> kind.spelling() == "command"@,
        kind is Search ==> kind.spelling() == "search"@,
        kind is Target ==> kind.spelling() == "target"@,
        kind is WindowTarget ==> kind.spelling() == "window-target"@,
{
}

} // verus!
