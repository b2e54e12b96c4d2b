//! Whole environments.
//!
//! A listing of an environment cannot be trusted: a value that holds a line
//! feed takes more than one line, and a line that continues a value can look
//! like the next variable. Its lines give names to ask for, and a name that
//! tmux does not hold is dropped.

use vstd::prelude::*;
use vstd::string::*;
use vstd::utf8::*;

use crate::command;
use crate::command::Command;
use crate::command::CommandResult;
use crate::error;
use crate::error::Error;
use crate::output;
use crate::output::lines;
use crate::output::read_lossy;
use crate::output::to_strings;
use crate::server::settings;
use crate::server::settings::EnvironmentEntry;
use crate::server::settings::EnvironmentTable;
use crate::server::Server;
use crate::text;
use crate::text::sort_set;
use crate::text::to_chars;

verus! {

/// How many characters stand in front of the first equals sign.
pub open spec fn before_equals(line: Seq<char>) -> nat
    decreases line.len(),
{
    if line.len() == 0 || line[0] == '=' {
        0
    } else {
        1 + before_equals(line.skip(1))
    }
}

/// The name that a line of a listing may hold: what stands behind a dash, or in
/// front of an equals sign.
pub open spec fn candidate(line: Seq<char>) -> Option<Seq<char>> {
    if line.len() > 0 && line[0] == '-' {
        Some(line.skip(1))
    } else if before_equals(line) < line.len() {
        Some(line.take(before_equals(line) as int))
    } else {
        None
    }
}

/// The names that lines may hold.
pub open spec fn candidates(lines: Seq<Seq<char>>) -> Seq<Seq<char>>
    decreases lines.len(),
{
    if lines.len() == 0 {
        Seq::empty()
    } else {
        let earlier = candidates(lines.drop_last());
        match candidate(lines.last()) {
            Some(name) => earlier.push(name),
            None => earlier,
        }
    }
}

/// The names to ask for, in the order of their bytes and each of them once.
pub open spec fn names_to_ask(listing: Seq<char>) -> Seq<Seq<char>> {
    text::sorted_set(candidates(output::lines_of(listing)))
}

/// Find the name that a line may hold.
fn find_candidate(line: &str) -> (name: Option<&str>)
    ensures
        match name {
            Some(name) => candidate(line@) == Some(name@),
            None => candidate(line@) is None,
        },
{
    let chars = to_chars(line);
    if chars.len() > 0 && chars[0] == '-' {
        let name = line.substring_char(1, chars.len());
        assert(name@ =~= line@.skip(1));
        return Some(name);
    }
    let mut end: usize = 0;
    assert(line@.skip(0) =~= line@);
    while end < chars.len() && chars[end] != '='
        invariant
            end <= chars@.len(),
            chars@ == line@,
            before_equals(line@) == end + before_equals(line@.skip(end as int)),
        decreases chars@.len() - end,
    {
        assert(line@.skip(end as int)[0] == chars@[end as int]);
        assert(line@.skip(end as int).skip(1) =~= line@.skip(end + 1));
        end += 1;
    }
    proof {
        if end < chars@.len() {
            assert(line@.skip(end as int)[0] == '=');
        }
    }
    if end == chars.len() {
        return None;
    }
    let name = line.substring_char(0, end);
    assert(name@ =~= line@.take(end as int));
    Some(name)
}

/// Read the names to ask for from a listing.
pub fn parse_environment_names(listing: &str) -> (names: Vec<String>)
    ensures
        output::string_views(names@) == names_to_ask(listing@),
{
    let lines = lines(listing);
    let ghost views = text::slices(lines@);
    let mut found: Vec<&str> = Vec::new();
    let mut index: usize = 0;
    assert(views.take(0) =~= Seq::empty());
    assert(text::slices(found@) =~= Seq::empty());
    while index < lines.len()
        invariant
            index <= lines@.len(),
            views == text::slices(lines@),
            text::slices(found@) == candidates(views.take(index as int)),
        decreases lines@.len() - index,
    {
        let ghost longer = views.take(index + 1);
        assert(longer.drop_last() =~= views.take(index as int));
        assert(longer.last() == lines@[index as int]@);
        if let Some(name) = find_candidate(lines[index]) {
            let ghost before = text::slices(found@);
            found.push(name);
            assert(text::slices(found@) =~= before.push(name@));
        }
        index += 1;
    }
    assert(views.take(lines@.len() as int) =~= views);
    to_strings(&sort_set(found.as_slice()))
}

/// What tmux answered about a name, if it holds it.
pub struct Answer {
    pub name: String,
    pub entry: Option<EnvironmentEntry>,
}

/// What tmux answered about a name, in contracts.
#[verifier::ext_equal]
pub ghost struct AnswerV {
    pub name: Seq<char>,
    pub entry: Option<settings::EntryV>,
}

impl Answer {
    /// The answer in contracts.
    pub open spec fn view(&self) -> AnswerV {
        AnswerV {
            name: self.name@,
            entry: match self.entry {
                Some(entry) => Some(entry@),
                None => None,
            },
        }
    }
}

/// The answers of a list in contracts.
pub open spec fn answer_views(answers: Seq<Answer>) -> Seq<AnswerV> {
    answers.map_values(|answer: Answer| answer@)
}

/// A variable and its entry.
pub struct Variable {
    pub name: String,
    pub entry: EnvironmentEntry,
}

/// A variable and its entry, in contracts.
#[verifier::ext_equal]
pub ghost struct VariableV {
    pub name: Seq<char>,
    pub entry: settings::EntryV,
}

/// The variables of a list in contracts.
pub open spec fn variable_views(variables: Seq<Variable>) -> Seq<VariableV> {
    variables.map_values(
        |variable: Variable| VariableV { name: variable.name@, entry: variable.entry@ },
    )
}

/// The variables that tmux holds.
pub open spec fn held(answers: Seq<AnswerV>) -> Seq<VariableV>
    decreases answers.len(),
{
    if answers.len() == 0 {
        Seq::empty()
    } else {
        let earlier = held(answers.drop_last());
        match answers.last().entry {
            Some(entry) => earlier.push(VariableV { name: answers.last().name, entry }),
            None => earlier,
        }
    }
}

/// Keep the variables that tmux holds, in the order of the answers.
pub fn collect_environment(answers: &Vec<Answer>) -> (variables: Vec<Variable>)
    ensures
        variable_views(variables@) == held(answer_views(answers@)),
{
    let ghost views = answer_views(answers@);
    let mut variables: Vec<Variable> = Vec::new();
    let mut index: usize = 0;
    assert(views.take(0) =~= Seq::empty());
    assert(variable_views(variables@) =~= Seq::empty());
    while index < answers.len()
        invariant
            index <= answers@.len(),
            views == answer_views(answers@),
            variable_views(variables@) == held(views.take(index as int)),
        decreases answers@.len() - index,
    {
        let ghost longer = views.take(index + 1);
        assert(longer.drop_last() =~= views.take(index as int));
        assert(longer.last() == answers@[index as int]@);
        let answer = &answers[index];
        if let Some(entry) = &answer.entry {
            let ghost before = variable_views(variables@);
            let variable = Variable { name: answer.name.clone(), entry: entry.copy() };
            variables.push(variable);
            assert(variable_views(variables@) =~= before.push(
                VariableV { name: variable.name@, entry: variable.entry@ },
            ));
        }
        index += 1;
    }
    assert(views.take(answers@.len() as int) =~= views);
    variables
}

impl EnvironmentEntry {
    /// Copy the entry.
    pub fn copy(&self) -> (copy: EnvironmentEntry)
        ensures
            copy@ == self@,
    {
        match self {
            EnvironmentEntry::Value(value) => EnvironmentEntry::Value(value.copy()),
            EnvironmentEntry::Removed => EnvironmentEntry::Removed,
        }
    }
}

impl EnvironmentTable {
    /// The command that lists a whole environment.
    pub fn environment_all(&self) -> (command: Command)
        ensures
            command@ == settings::on_environment(command::called("show-environment"@), *self),
    {
        settings::add_environment(Command::new("show-environment"), self)
    }
}

/// Read the names to ask for from what tmux answered.
///
/// # Errors
///
/// Why tmux refused the listing.
pub fn read_environment_names(result: &CommandResult) -> (names: Result<Vec<String>, Error>)
    ensures
        match error::refusal("show-environment"@, result@) {
            Some(failure) => names is Err && names->Err_0@ == failure,
            None => names is Ok && output::string_views(names->Ok_0@) == names_to_ask(
                output::lossy_text(result@.stdout),
            ),
        },
{
    if let Err(failure) = result.require("show-environment") {
        return Err(failure);
    }
    Ok(parse_environment_names(read_lossy(result.stdout()).as_str()))
}

impl Server {
    /// The command that lists the server's whole environment.
    pub fn environment_all(&self) -> (command: Command)
        ensures
            command@ == settings::on_environment(
                command::called("show-environment"@),
                EnvironmentTable::Global,
            ),
    {
        EnvironmentTable::Global.environment_all()
    }
}

/// The name of a variable that tmux lists is asked for, whatever its value, and
/// so is the name of a hidden one.
pub proof fn law_listed_variables_are_asked_for(
    lines: Seq<Seq<char>>,
    index: int,
    name: Seq<char>,
    value: Seq<char>,
)
    requires
        0 <= index < lines.len(),
        !name.contains('='),
        lines[index] == seq!['-'] + name || (lines[index] == name + seq!['='] + value && !(
        name.len() > 0 && name[0] == '-')),
    ensures
        text::sorted_set(candidates(lines)).contains(name),
{
    lemma_candidate(name, value);
    lemma_candidates_hold(lines, index, name);
    text::law_sorted_sets_are_increasing(candidates(lines));
}

proof fn lemma_candidate(name: Seq<char>, value: Seq<char>)
    requires
        !name.contains('='),
    ensures
        candidate(seq!['-'] + name) == Some(name),
        !(name.len() > 0 && name[0] == '-') ==> candidate(name + seq!['='] + value) == Some(name),
{
    let hidden = seq!['-'] + name;
    assert(hidden.skip(1) =~= name);
    let line = name + seq!['='] + value;
    lemma_before_equals(name, value);
    assert(line.take(name.len() as int) =~= name);
    if name.len() > 0 {
        assert(line[0] == name[0]);
    } else {
        assert(line[0] == '=');
    }
}

proof fn lemma_before_equals(name: Seq<char>, value: Seq<char>)
    requires
        !name.contains('='),
    ensures
        before_equals(name + seq!['='] + value) == name.len(),
    decreases name.len(),
{
    let line = name + seq!['='] + value;
    if name.len() > 0 {
        assert(name[0] != '=');
        assert(line[0] == name[0]);
        let rest = name.skip(1);
        assert forall|i: int| 0 <= i < rest.len() implies rest[i] != '=' by {
            assert(rest[i] == name[i + 1]);
        }
        assert(line.skip(1) =~= rest + seq!['='] + value);
        lemma_before_equals(rest, value);
    } else {
        assert(line[0] == '=');
    }
}

proof fn lemma_candidates_hold(lines: Seq<Seq<char>>, index: int, name: Seq<char>)
    requires
        0 <= index < lines.len(),
        candidate(lines[index]) == Some(name),
    ensures
        candidates(lines).contains(name),
    decreases lines.len(),
{
    let head = lines.drop_last();
    let earlier = candidates(head);
    if index < head.len() {
        assert(head[index] == lines[index]);
        lemma_candidates_hold(head, index, name);
        let at = choose|at: int| 0 <= at < earlier.len() && earlier[at] == name;
        assert(candidates(lines)[at] == name);
    } else {
        assert(candidates(lines)[earlier.len() as int] == name);
    }
}

/// A line names a variable behind a dash, or in front of its first equals sign.
/// Any other line names none.
pub proof fn law_lines_name_their_variable(line: Seq<char>, name: Seq<char>)
    ensures
        candidate(line) == Some(name) <==> if line.len() > 0 && line[0] == '-' {
            line == seq!['-'] + name
        } else {
            !name.contains('=') && exists|value: Seq<char>|
                line == #[trigger] (name + seq!['='] + value)
        },
        candidate(line) is None <==> !line.contains('=') && !(line.len() > 0 && line[0] == '-'),
{
    lemma_before_equals_bounds(line);
    let end = before_equals(line) as int;
    if line.len() > 0 && line[0] == '-' {
        assert(line =~= seq!['-'] + line.skip(1));
        assert((seq!['-'] + name).skip(1) =~= name);
    } else {
        if end < line.len() {
            let value = line.skip(end + 1);
            assert(line =~= line.take(end) + seq!['='] + value);
            assert(line[end] == '=');
            assert(!line.take(end).contains('=')) by {
                assert forall|i: int| 0 <= i < end implies #[trigger] line.take(end)[i] != '=' by {
                    assert(line.take(end)[i] == line[i]);
                }
            }
        }
        if !name.contains('=') && exists|value: Seq<char>|
            line == #[trigger] (name + seq!['='] + value) {
            let value = choose|value: Seq<char>| line == #[trigger] (name + seq!['='] + value);
            lemma_before_equals(name, value);
            assert(line.take(name.len() as int) =~= name);
        }
    }
}

proof fn lemma_before_equals_bounds(line: Seq<char>)
    ensures
        before_equals(line) <= line.len(),
        before_equals(line) < line.len() ==> line[before_equals(line) as int] == '=',
        forall|i: int| 0 <= i < before_equals(line) ==> #[trigger] line[i] != '=',
    decreases line.len(),
{
    if line.len() > 0 && line[0] != '=' {
        let rest = line.skip(1);
        lemma_before_equals_bounds(rest);
        assert forall|i: int| 0 <= i < before_equals(line) implies #[trigger] line[i] != '=' by {
            if i > 0 {
                assert(line[i] == rest[i - 1]);
            }
        }
    }
}

/// The names that lines hold are those of the lines that hold one, in their
/// order, and each name that a listing holds is asked for once.
pub proof fn law_names_follow_their_lines(lines: Seq<Seq<char>>, listing: Seq<char>)
    ensures
        candidates(lines) == lines.filter(
            |line: Seq<char>| candidate(line) is Some,
        ).map_values(|line: Seq<char>| candidate(line)->0),
        names_to_ask(listing) == text::sorted_set(candidates(output::lines_of(listing))),
        names_to_ask(listing).no_duplicates(),
        forall|name: Seq<char>| #[trigger]
            names_to_ask(listing).contains(name) <==> candidates(
                output::lines_of(listing),
            ).contains(name),
    decreases lines.len(),
{
    let keep = |line: Seq<char>| candidate(line) is Some;
    let read = |line: Seq<char>| candidate(line)->0;
    text::lemma_kept_values(lines, keep, read);
    if lines.len() > 0 {
        law_names_follow_their_lines(lines.drop_last(), listing);
    }
    let names = names_to_ask(listing);
    text::law_sorted_sets_are_increasing(candidates(output::lines_of(listing)));
    assert forall|i: int, j: int| 0 <= i < names.len() && 0 <= j < names.len() && i
        != j implies names[i] != names[j] by {
        text::lemma_precedes_is_strict(encode_utf8(names[i]), encode_utf8(names[j]));
    }
}

/// The variables that tmux holds are those of the answers with an entry, each
/// with its name and entry and in the order of the answers.
pub proof fn law_answers_with_an_entry_are_held(answers: Seq<AnswerV>)
    ensures
        held(answers) == answers.filter(|answer: AnswerV| answer.entry is Some).map_values(
            |answer: AnswerV| VariableV { name: answer.name, entry: answer.entry->0 },
        ),
    decreases answers.len(),
{
    let keep = |answer: AnswerV| answer.entry is Some;
    let read = |answer: AnswerV| VariableV { name: answer.name, entry: answer.entry->0 };
    text::lemma_kept_values(answers, keep, read);
    if answers.len() > 0 {
        law_answers_with_an_entry_are_held(answers.drop_last());
    }
}

} // verus!
