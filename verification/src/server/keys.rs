//! Key bindings, as lines and as fields.

use vstd::prelude::*;
use vstd::string::*;
use vstd::utf8::*;

use crate::command;
use crate::command::Command;
use crate::command::CommandResult;
use crate::error;
use crate::error::Error;
use crate::formats::codec;
use crate::formats::codec::split_rows;
use crate::formats::codec::RawField;
use crate::formats::error as codec_error;
use crate::formats::error::FormatCodecError;
use crate::formats::error::FormatCodecErrorKind;
use crate::formats::error::FormatCodecPhase;
use crate::output;
use crate::output::read_lossy;
use crate::server::buffers::parse_lines;
use crate::server::lifecycle;
use crate::server::lifecycle::behind;
use crate::server::Server;
use crate::text;
use crate::text::bytes_eq;
use crate::text::copy_bytes;
use crate::text::TmuxText;
use crate::version::TmuxVersion;

verus! {

/// One key binding, as tmux holds it.
pub struct KeyBinding {
    table: TmuxText,
    key: TmuxText,
    command: TmuxText,
    note: Option<TmuxText>,
    repeats: bool,
}

/// One key binding, in contracts.
#[verifier::ext_equal]
pub ghost struct BindingV {
    pub table: Seq<u8>,
    pub key: Seq<u8>,
    pub command: Seq<u8>,
    pub note: Option<Seq<u8>>,
    pub repeats: bool,
}

impl KeyBinding {
    /// The binding in contracts.
    pub closed spec fn view(&self) -> BindingV {
        BindingV {
            table: self.table@,
            key: self.key@,
            command: self.command@,
            note: match self.note {
                Some(note) => Some(note@),
                None => None,
            },
            repeats: self.repeats,
        }
    }

    /// Describe a binding.
    pub fn new(
        table: TmuxText,
        key: TmuxText,
        command: TmuxText,
        note: Option<TmuxText>,
        repeats: bool,
    ) -> (binding: KeyBinding)
        ensures
            binding@ == (BindingV {
                table: table@,
                key: key@,
                command: command@,
                note: match note {
                    Some(note) => Some(note@),
                    None => None,
                },
                repeats,
            }),
    {
        KeyBinding { table, key, command, note, repeats }
    }

    /// Return the key table, such as `prefix`, `root` or `copy-mode-vi`.
    pub fn table(&self) -> (table: &TmuxText)
        ensures
            table@ == self@.table,
    {
        &self.table
    }

    /// Return the key as tmux names it, such as `C-b` or `"`, unquoted.
    pub fn key(&self) -> (key: &TmuxText)
        ensures
            key@ == self@.key,
    {
        &self.key
    }

    /// Return the bound command list, as a `bind-key` line renders it.
    pub fn command(&self) -> (command: &TmuxText)
        ensures
            command@ == self@.command,
    {
        &self.command
    }

    /// Return the note `bind-key -N` attached, if any. An empty note reads as
    /// none.
    pub fn note(&self) -> (note: Option<&TmuxText>)
        ensures
            match note {
                Some(note) => self@.note == Some(note@),
                None => self@.note is None,
            },
    {
        match &self.note {
            Some(note) => Some(note),
            None => None,
        }
    }

    /// Report whether the binding repeats, `bind-key -r`.
    pub fn repeats(&self) -> (repeats: bool)
        ensures
            repeats == self@.repeats,
    {
        self.repeats
    }

    /// Copy the binding.
    pub fn copy(&self) -> (copy: KeyBinding)
        ensures
            copy@ == self@,
    {
        KeyBinding {
            table: self.table.copy(),
            key: self.key.copy(),
            command: self.command.copy(),
            note: match &self.note {
                Some(note) => Some(note.copy()),
                None => None,
            },
            repeats: self.repeats,
        }
    }
}

impl Clone for KeyBinding {
    fn clone(&self) -> (copy: Self)
        ensures
            copy@ == self@,
    {
        self.copy()
    }
}

impl PartialEq for KeyBinding {
    fn eq(&self, other: &Self) -> (same: bool) {
        let noted = match (&self.note, &other.note) {
            (Some(left), Some(right)) => *left == *right,
            (None, None) => true,
            _ => false,
        };
        noted && self.table == other.table && self.key == other.key && self.command
            == other.command && self.repeats == other.repeats
    }
}

impl vstd::std_specs::cmp::PartialEqSpecImpl for KeyBinding {
    open spec fn obeys_eq_spec() -> bool {
        true
    }

    open spec fn eq_spec(&self, other: &Self) -> bool {
        self@ == other@
    }
}

impl Eq for KeyBinding {

}

/// The bindings of a list in contracts.
pub open spec fn binding_views(bindings: Seq<KeyBinding>) -> Seq<BindingV> {
    bindings.map_values(|binding: KeyBinding| binding@)
}

/// The names of the fields of a row.
pub open spec fn field_name(field: int) -> Seq<char> {
    if field == 0 {
        "key_table"@
    } else if field == 1 {
        "key_string"@
    } else if field == 2 {
        "key_repeat"@
    } else if field == 3 {
        "key_note"@
    } else {
        "key_command"@
    }
}

/// The name of a field.
fn name_field(field: usize) -> (name: &'static str)
    ensures
        name@ == field_name(field as int),
{
    match field {
        0 => "key_table",
        1 => "key_string",
        2 => "key_repeat",
        3 => "key_note",
        _ => "key_command",
    }
}

/// The failure of a row that does not frame.
pub open spec fn framing_error(failure: codec::FailureV) -> codec_error::ErrorV {
    codec_error::ErrorV {
        kind: failure.kind,
        phase: failure.phase,
        row: Some(failure.row),
        field: failure.field,
        field_name: match failure.field {
            Some(field) => Some(field_name(field)),
            None => None,
        },
        expected: None,
        offset: Some(failure.offset),
        profile: None,
    }
}

/// The failure of a row whose repeat flag is neither `0` nor `1`.
pub open spec fn repeat_error(row: int) -> codec_error::ErrorV {
    codec_error::ErrorV {
        kind: FormatCodecErrorKind::InvalidValue,
        phase: FormatCodecPhase::Decode,
        row: Some(row),
        field: Some(2),
        field_name: Some("key_repeat"@),
        expected: None,
        offset: None,
        profile: None,
    }
}

/// The binding that a row's values describe.
pub open spec fn binding_of(row: int, values: Seq<Seq<u8>>) -> Result<
    BindingV,
    codec_error::ErrorV,
> {
    if values[2] != seq![48u8] && values[2] != seq![49u8] {
        Err(repeat_error(row))
    } else {
        Ok(
            BindingV {
                table: values[0],
                key: values[1],
                command: values[4],
                note: if values[3].len() == 0 {
                    None
                } else {
                    Some(values[3])
                },
                repeats: values[2] == seq![49u8],
            },
        )
    }
}

/// The bindings that rows describe, or the first failure among them.
pub open spec fn bindings_of(rows: Seq<Seq<Seq<u8>>>) -> Result<
    Seq<BindingV>,
    codec_error::ErrorV,
>
    decreases rows.len(),
{
    if rows.len() == 0 {
        Ok(Seq::empty())
    } else {
        match bindings_of(rows.drop_last()) {
            Err(failure) => Err(failure),
            Ok(earlier) => match binding_of(rows.len() - 1, rows.last()) {
                Err(failure) => Err(failure),
                Ok(binding) => Ok(earlier.push(binding)),
            },
        }
    }
}

/// The bindings that a listing holds.
pub open spec fn parsed(stdout: Seq<u8>) -> Result<Seq<BindingV>, codec_error::ErrorV> {
    match codec::read_rows(stdout, 0, 61, 0, 5) {
        Err(failure) => Err(framing_error(failure)),
        Ok(rows) => bindings_of(codec::table(rows)),
    }
}

proof fn lemma_first_failure(rows: Seq<Seq<Seq<u8>>>, count: int, failure: codec_error::ErrorV)
    requires
        0 <= count <= rows.len(),
        bindings_of(rows.take(count)) == Err::<Seq<BindingV>, codec_error::ErrorV>(failure),
    ensures
        bindings_of(rows) == Err::<Seq<BindingV>, codec_error::ErrorV>(failure),
    decreases rows.len() - count,
{
    if count < rows.len() {
        let longer = rows.take(count + 1);
        assert(longer.drop_last() =~= rows.take(count));
        lemma_first_failure(rows, count + 1, failure);
    } else {
        assert(rows.take(count) =~= rows);
    }
}

/// Read the binding that a row describes.
fn read_binding(row: usize, fields: &Vec<RawField>) -> (binding: Result<
    KeyBinding,
    FormatCodecError,
>)
    requires
        fields@.len() == 5,
    ensures
        match binding {
            Ok(binding) => binding_of(row as int, codec::values(codec::raw_views(fields@))) == Ok::<
                BindingV,
                codec_error::ErrorV,
            >(binding@),
            Err(failure) => binding_of(row as int, codec::values(codec::raw_views(fields@)))
                == Err::<BindingV, codec_error::ErrorV>(failure@),
        },
{
    let ghost values = codec::values(codec::raw_views(fields@));
    assert(forall|i: int| 0 <= i < 5 ==> values[i] == (#[trigger] fields@[i]).bytes@);
    let flag = &fields[2].bytes;
    let repeats = if flag.len() == 1 && flag[0] == 48 {
        assert(flag@ =~= seq![48u8]);
        false
    } else if flag.len() == 1 && flag[0] == 49 {
        assert(flag@ =~= seq![49u8]);
        assert(flag@[0] != seq![48u8][0]);
        true
    } else {
        proof {
            if flag@ == seq![48u8] {
                assert(flag@[0] == 48);
            }
            if flag@ == seq![49u8] {
                assert(flag@[0] == 49);
            }
        }
        return Err(
            FormatCodecError::uncatalogued(
                FormatCodecErrorKind::InvalidValue,
                FormatCodecPhase::Decode,
                row,
                Some(2),
                Some("key_repeat"),
                None,
            ),
        );
    };
    assert(seq![48u8][0] != seq![49u8][0]);
    let note = if fields[3].bytes.len() == 0 {
        None
    } else {
        Some(TmuxText::from_bytes(copy_bytes(fields[3].bytes.as_slice())))
    };
    Ok(
        KeyBinding {
            table: TmuxText::from_bytes(copy_bytes(fields[0].bytes.as_slice())),
            key: TmuxText::from_bytes(copy_bytes(fields[1].bytes.as_slice())),
            command: TmuxText::from_bytes(copy_bytes(fields[4].bytes.as_slice())),
            note,
            repeats,
        },
    )
}

/// Decode `list-keys -F` output.
///
/// # Errors
///
/// The first row that does not frame, then the first whose repeat flag is
/// neither `0` nor `1`: one such row fails the whole listing.
pub fn parse(stdout: &[u8]) -> (bindings: Result<Vec<KeyBinding>, FormatCodecError>)
    ensures
        match parsed(stdout@) {
            Ok(views) => bindings is Ok && binding_views(bindings->Ok_0@) == views,
            Err(failure) => bindings is Err && bindings->Err_0@ == failure,
        },
{
    let rows = match split_rows(stdout, 61, 5) {
        Ok(rows) => rows,
        Err(failure) => {
            let field_name = match failure.field {
                Some(field) => Some(name_field(field)),
                None => None,
            };
            return Err(
                FormatCodecError::uncatalogued(
                    failure.kind,
                    failure.phase,
                    failure.row,
                    failure.field,
                    field_name,
                    Some(failure.offset),
                ),
            );
        },
    };
    let ghost read = codec::table(codec::row_views(rows@));
    let mut bindings: Vec<KeyBinding> = Vec::new();
    let mut index: usize = 0;
    assert(read.take(0) =~= Seq::empty());
    assert(binding_views(bindings@) =~= Seq::empty());
    while index < rows.len()
        invariant
            index <= rows@.len(),
            read == codec::table(codec::row_views(rows@)),
            forall|i: int| 0 <= i < rows@.len() ==> (#[trigger] rows@[i])@.len() == 5,
            bindings_of(read.take(index as int)) == Ok::<Seq<BindingV>, codec_error::ErrorV>(
                binding_views(bindings@),
            ),
            parsed(stdout@) == bindings_of(read),
        decreases rows@.len() - index,
    {
        let ghost longer = read.take(index + 1);
        assert(longer.drop_last() =~= read.take(index as int));
        assert(longer.last() == codec::values(codec::raw_views(rows@[index as int]@)));
        match read_binding(index, &rows[index]) {
            Ok(binding) => {
                let ghost before = binding_views(bindings@);
                bindings.push(binding);
                assert(binding_views(bindings@) =~= before.push(binding@));
            },
            Err(failure) => {
                proof {
                    lemma_first_failure(read, index + 1, failure@);
                }
                return Err(failure);
            },
        }
        index += 1;
    }
    assert(read.take(rows@.len() as int) =~= read);
    Ok(bindings)
}

/// The values of a binding, in the order of the fields.
pub open spec fn values_of(binding: BindingV) -> Seq<Seq<u8>> {
    seq![
        binding.table,
        binding.key,
        if binding.repeats {
            seq![49u8]
        } else {
            seq![48u8]
        },
        match binding.note {
            Some(note) => note,
            None => Seq::empty(),
        },
        binding.command,
    ]
}

/// A listing of bindings as tmux prints it.
pub open spec fn printed(bindings: Seq<BindingV>) -> Seq<u8> {
    codec::framed_rows(bindings.map_values(|binding: BindingV| values_of(binding)), 61)
}

/// Whether tmux can hold a binding: no text holds a NUL, and there is no empty
/// note.
pub open spec fn holdable(binding: BindingV) -> bool {
    &&& codec::free_of_nul(binding.table)
    &&& codec::free_of_nul(binding.key)
    &&& codec::free_of_nul(binding.command)
    &&& binding.note matches Some(note) ==> note.len() > 0 && codec::free_of_nul(note)
}

/// Bindings that tmux printed are read as the bindings that it holds.
pub proof fn law_key_bindings_are_read_back(bindings: Seq<BindingV>)
    requires
        forall|i: int| 0 <= i < bindings.len() ==> holdable(#[trigger] bindings[i]),
    ensures
        parsed(printed(bindings)) == Ok::<Seq<BindingV>, codec_error::ErrorV>(bindings),
{
    let rows = bindings.map_values(|binding: BindingV| values_of(binding));
    assert forall|i: int, j: int| 0 <= i < rows.len() && 0 <= j < rows[i].len() implies codec::free_of_nul(
        #[trigger] rows[i][j],
    ) by {
        assert(holdable(bindings[i]));
        assert(rows[i] == values_of(bindings[i]));
    }
    codec::law_framing_round_trips(rows, 61, 5);
    lemma_rows_are_bindings(bindings);
}

proof fn lemma_rows_are_bindings(bindings: Seq<BindingV>)
    requires
        forall|i: int| 0 <= i < bindings.len() ==> holdable(#[trigger] bindings[i]),
    ensures
        bindings_of(bindings.map_values(|binding: BindingV| values_of(binding))) == Ok::<
            Seq<BindingV>,
            codec_error::ErrorV,
        >(bindings),
    decreases bindings.len(),
{
    let rows = bindings.map_values(|binding: BindingV| values_of(binding));
    if bindings.len() > 0 {
        let head = bindings.drop_last();
        assert forall|i: int| 0 <= i < head.len() implies holdable(#[trigger] head[i]) by {
            assert(head[i] == bindings[i]);
        }
        lemma_rows_are_bindings(head);
        assert(rows.drop_last() =~= head.map_values(|binding: BindingV| values_of(binding)));
        let last = bindings.last();
        assert(holdable(bindings[bindings.len() - 1]));
        assert(rows.last() == values_of(last));
        assert(seq![48u8][0] != seq![49u8][0]);
        assert(head.push(last) =~= bindings);
    } else {
        assert(bindings =~= Seq::empty());
    }
}

/// The bindings of one table.
pub open spec fn in_table(bindings: Seq<BindingV>, table: Seq<u8>) -> Seq<BindingV>
    decreases bindings.len(),
{
    if bindings.len() == 0 {
        Seq::empty()
    } else {
        let earlier = in_table(bindings.drop_last(), table);
        if bindings.last().table == table {
            earlier.push(bindings.last())
        } else {
            earlier
        }
    }
}

/// The bindings of a table are those of the listing whose table it is, each as
/// often as it is listed and in the order of the listing, whatever else the
/// bindings hold.
pub proof fn law_tables_keep_their_bindings(bindings: Seq<BindingV>, table: Seq<u8>)
    ensures
        in_table(bindings, table) == bindings.filter(|binding: BindingV| binding.table == table),
        forall|binding: BindingV| #[trigger]
            in_table(bindings, table).contains(binding) <==> bindings.contains(binding)
                && binding.table == table,
        forall|binding: BindingV|
            binding.table == table ==> #[trigger] in_table(bindings, table).to_multiset().count(
                binding,
            ) == bindings.to_multiset().count(binding),
    decreases bindings.len(),
{
    reveal(Seq::filter);
    broadcast use vstd::seq_lib::group_to_multiset_ensures;
    let kept = in_table(bindings, table);
    if bindings.len() > 0 {
        let head = bindings.drop_last();
        law_tables_keep_their_bindings(head, table);
        let earlier = in_table(head, table);
        let last = bindings.last();
        assert(head.push(last) =~= bindings);
        assert forall|binding: BindingV| #[trigger]
            kept.contains(binding) <==> bindings.contains(binding) && binding.table == table by {
            assert(bindings.contains(binding) <==> bindings.to_multiset().count(binding) > 0);
            assert(head.contains(binding) <==> head.to_multiset().count(binding) > 0);
            assert(kept.contains(binding) <==> kept.to_multiset().count(binding) > 0);
            assert(earlier.contains(binding) <==> earlier.to_multiset().count(binding) > 0);
        }
    } else {
        assert(bindings =~= Seq::empty());
        assert(kept =~= Seq::empty());
        assert(bindings.to_multiset() =~= kept.to_multiset());
    }
}

/// Keep the bindings of one table.
fn keep_table(bindings: &Vec<KeyBinding>, table: &str) -> (kept: Vec<KeyBinding>)
    ensures
        binding_views(kept@) == in_table(binding_views(bindings@), encode_utf8(table@)),
{
    let ghost views = binding_views(bindings@);
    let mut kept: Vec<KeyBinding> = Vec::new();
    let mut index: usize = 0;
    assert(views.take(0) =~= Seq::empty());
    assert(binding_views(kept@) =~= Seq::empty());
    while index < bindings.len()
        invariant
            index <= bindings@.len(),
            views == binding_views(bindings@),
            binding_views(kept@) == in_table(views.take(index as int), encode_utf8(table@)),
        decreases bindings@.len() - index,
    {
        let ghost longer = views.take(index + 1);
        assert(longer.drop_last() =~= views.take(index as int));
        assert(longer.last() == bindings@[index as int]@);
        if bytes_eq(bindings[index].table.as_bytes(), table.as_bytes()) {
            let ghost before = binding_views(kept@);
            let copy = bindings[index].copy();
            kept.push(copy);
            assert(binding_views(kept@) =~= before.push(copy@));
        }
        index += 1;
    }
    assert(views.take(bindings@.len() as int) =~= views);
    kept
}

/// The bindings that a listing reports, of one table if one is named.
pub open spec fn bindings_listed(result: command::ResultV, table: Option<Seq<char>>) -> Result<
    Seq<BindingV>,
    error::ErrorV,
> {
    match error::refusal("list-keys"@, result) {
        Some(failure) => Err(failure),
        None => match parsed(result.stdout) {
            Err(detail) => Err(error::ErrorV::DecodeListing { list_command: "list-keys"@, detail }),
            Ok(bindings) => match table {
                Some(table) => Ok(in_table(bindings, encode_utf8(table))),
                None => Ok(bindings),
            },
        },
    }
}

impl Server {
    /// The command that binds a key in one key table.
    pub fn bind_key(&self, table: &str, key: &str, command: Vec<u8>) -> (bind: Command)
        ensures
            bind@ == command::called("bind-key"@).with_text("-T"@).with_text(table@).with_text(
                key@,
            ).with(command@),
    {
        Command::new("bind-key").text("-T").text(table).text(key).arg(command)
    }

    /// The command that removes a key binding from one key table.
    pub fn unbind_key(&self, table: &str, key: &str) -> (unbind: Command)
        ensures
            unbind@ == command::called("unbind-key"@).with_text("-T"@).with_text(table@).with_text(
                key@,
            ),
    {
        Command::new("unbind-key").text("-T").text(table).text(key)
    }

    /// The command that lists key bindings as tmux prints them.
    pub fn key_bindings(&self, table: Option<&str>) -> (list: Command)
        ensures
            list@ == match table {
                Some(table) => command::called("list-keys"@).with_text("-T"@).with_text(table@),
                None => command::called("list-keys"@),
            },
    {
        let command = Command::new("list-keys");
        match table {
            Some(table) => command.text("-T").text(table),
            None => command,
        }
    }

    /// Read key bindings as tmux prints them, one from each line.
    ///
    /// # Errors
    ///
    /// [`Error::CommandFailed`] where tmux refused the listing.
    pub fn read_key_bindings(result: &CommandResult) -> (lines: Result<Vec<String>, Error>)
        ensures
            if result@.accepted() {
                lines is Ok && output::string_views(lines->Ok_0@) == output::lines_of(
                    output::lossy_text(result@.stdout),
                )
            } else {
                lines is Err && lines->Err_0@ == error::failed_as("list-keys"@, result@)
            },
    {
        if !result.success() {
            return Err(Error::command_failed("list-keys", result));
        }
        Ok(parse_lines(read_lossy(result.stdout()).as_str()))
    }

    /// The command that lists key bindings as fields. Every table is listed,
    /// because some releases do not print a listing of exactly one binding.
    ///
    /// # Errors
    ///
    /// The reason of [`Server::require_typed_key_bindings`].
    pub fn typed_key_bindings(&self, found: &TmuxVersion) -> (list: Result<Command, Error>)
        ensures
            lifecycle::gated(
                list,
                lifecycle::without_typed_key_bindings(*found),
                command::called("list-keys"@).with_text("-F"@).with_text(
                    "#{q:key_table}=#{q:key_string}=#{key_repeat}=#{q:key_note}=#{q:key_command}="@,
                ),
            ),
    {
        behind(
            Server::require_typed_key_bindings(found),
            Command::new("list-keys").text("-F").text(
                "#{q:key_table}=#{q:key_string}=#{key_repeat}=#{q:key_note}=#{q:key_command}=",
            ),
        )
    }

    /// Read key bindings as fields, of one table if one is named.
    ///
    /// # Errors
    ///
    /// Why tmux refused the listing, or why a row does not decode.
    pub fn read_typed_key_bindings(result: &CommandResult, table: Option<&str>) -> (bindings:
        Result<Vec<KeyBinding>, Error>)
        ensures
            match bindings_listed(
                result@,
                match table {
                    Some(table) => Some(table@),
                    None => None,
                },
            ) {
                Ok(views) => bindings is Ok && binding_views(bindings->Ok_0@) == views,
                Err(failure) => bindings is Err && bindings->Err_0@ == failure,
            },
            bindings is Ok <==> result@.accepted() && parsed(result@.stdout) is Ok,
            bindings is Ok && table is None ==> binding_views(bindings->Ok_0@) == parsed(
                result@.stdout,
            )->Ok_0,
            bindings is Ok && table is Some ==> binding_views(bindings->Ok_0@) == parsed(
                result@.stdout,
            )->Ok_0.filter(|binding: BindingV| binding.table == encode_utf8(table->0@)),
    {
        proof {
            if table is Some {
                law_naming_a_table_filters_the_listing(result@, table->0@);
            }
        }
        if let Err(failure) = result.require("list-keys") {
            return Err(failure);
        }
        let bindings = match parse(result.stdout()) {
            Ok(bindings) => bindings,
            Err(detail) => return Err(Error::DecodeListing { list_command: "list-keys", detail }),
        };
        match table {
            Some(table) => Ok(keep_table(&bindings, table)),
            None => Ok(bindings),
        }
    }
}

/// A listing of rows of five values is decoded exactly where every repeat flag
/// is `0` or `1`. Each row then gives one binding, in order, and an empty note
/// is none. Otherwise the first row with another flag is reported.
pub proof fn law_rows_are_bindings(rows: Seq<Seq<Seq<u8>>>, index: int)
    requires
        0 <= index < rows.len(),
    ensures
        (forall|i: int|
            0 <= i < rows.len() ==> (#[trigger] rows[i])[2] == seq![48u8] || rows[i][2]
                == seq![49u8]) ==> {
            let bindings = bindings_of(rows)->Ok_0;
            &&& bindings_of(rows) is Ok
            &&& bindings.len() == rows.len()
            &&& bindings[index].table == rows[index][0]
            &&& bindings[index].key == rows[index][1]
            &&& bindings[index].repeats <==> rows[index][2] == seq![49u8]
            &&& bindings[index].note is None <==> rows[index][3].len() == 0
            &&& bindings[index].note matches Some(note) ==> note == rows[index][3]
            &&& bindings[index].command == rows[index][4]
        },
        rows[index][2] != seq![48u8] && rows[index][2] != seq![49u8] && (forall|i: int|
            0 <= i < index ==> (#[trigger] rows[i])[2] == seq![48u8] || rows[i][2] == seq![49u8])
            ==> bindings_of(rows) == Err::<Seq<BindingV>, codec_error::ErrorV>(
            codec_error::ErrorV {
                kind: FormatCodecErrorKind::InvalidValue,
                phase: FormatCodecPhase::Decode,
                row: Some(index),
                field: Some(2),
                field_name: Some("key_repeat"@),
                expected: None,
                offset: None,
                profile: None,
            },
        ),
    decreases rows.len(),
{
    let head = rows.drop_last();
    assert forall|i: int| 0 <= i < head.len() implies #[trigger] head[i] == rows[i] by {}
    assert(rows[rows.len() - 1] == rows.last());
    assert(seq![48u8][0] != seq![49u8][0]);
    if index < head.len() {
        law_rows_are_bindings(head, index);
        if forall|i: int|
            0 <= i < rows.len() ==> (#[trigger] rows[i])[2] == seq![48u8] || rows[i][2]
                == seq![49u8] {
            assert forall|i: int| 0 <= i < head.len() implies (#[trigger] head[i])[2] == seq![48u8]
                || head[i][2] == seq![49u8] by {
                assert(head[i] == rows[i]);
            }
        }
    } else {
        if forall|i: int|
            0 <= i < index ==> (#[trigger] rows[i])[2] == seq![48u8] || rows[i][2] == seq![49u8] {
            lemma_flags_are_read(head);
        }
    }
}

proof fn lemma_flags_are_read(rows: Seq<Seq<Seq<u8>>>)
    requires
        forall|i: int|
            0 <= i < rows.len() ==> (#[trigger] rows[i])[2] == seq![48u8] || rows[i][2]
                == seq![49u8],
    ensures
        bindings_of(rows) is Ok,
        bindings_of(rows)->Ok_0.len() == rows.len(),
    decreases rows.len(),
{
    if rows.len() > 0 {
        assert(rows[rows.len() - 1] == rows.last());
        lemma_flags_are_read(rows.drop_last());
    }
}

/// Naming a table keeps the bindings of that table among those that are listed
/// without one, and changes no failure. A listing that tmux refused is reported
/// as refused, and one that does not decode as such.
pub proof fn law_naming_a_table_filters_the_listing(result: command::ResultV, table: Seq<char>)
    ensures
        bindings_listed(result, None) is Ok <==> result.accepted() && parsed(result.stdout) is Ok,
        bindings_listed(result, None) matches Ok(all) ==> {
            &&& parsed(result.stdout) == Ok::<Seq<BindingV>, codec_error::ErrorV>(all)
            &&& bindings_listed(result, Some(table)) == Ok::<Seq<BindingV>, error::ErrorV>(
                all.filter(|binding: BindingV| binding.table == encode_utf8(table)),
            )
        },
        bindings_listed(result, None) matches Err(failure) ==> {
            &&& bindings_listed(result, Some(table)) == Err::<Seq<BindingV>, error::ErrorV>(failure)
            &&& !result.accepted() ==> failure == error::refused("list-keys"@, result)
            &&& result.accepted() ==> failure == (error::ErrorV::DecodeListing {
                list_command: "list-keys"@,
                detail: parsed(result.stdout)->Err_0,
            })
        },
{
    if let Ok(all) = parsed(result.stdout) {
        law_tables_keep_their_bindings(all, encode_utf8(table));
    }
}

/// What does not frame is reported with the name of the field that it happened
/// in.
pub proof fn law_framing_failures_name_their_field(stdout: Seq<u8>)
    ensures
        codec::read_rows(stdout, 0, 61, 0, 5) matches Err(failure) ==> parsed(stdout) is Err && ({
            let error = parsed(stdout)->Err_0;
            &&& error.kind == failure.kind
            &&& error.phase == failure.phase
            &&& error.row == Some(failure.row)
            &&& error.field == failure.field
            &&& error.offset == Some(failure.offset)
            &&& failure.field is None ==> error.field_name is None
            &&& failure.field == Some(0int) ==> error.field_name == Some("key_table"@)
            &&& failure.field == Some(1int) ==> error.field_name == Some("key_string"@)
            &&& failure.field == Some(2int) ==> error.field_name == Some("key_repeat"@)
            &&& failure.field == Some(3int) ==> error.field_name == Some("key_note"@)
            &&& failure.field == Some(4int) ==> error.field_name == Some("key_command"@)
        }),
{
}

} // verus!
