//! Snapshots: typed decoding of listing rows, filter handles and projections.

use libtmux::formats::catalog::{CatalogField, DecoderKind, InfoPlacement};
use libtmux::formats::error::{
    FormatCodecError, FormatCodecErrorKind, FormatCodecPhase, ListProfile,
};
use libtmux::formats::plan::{
    list_info_descriptors, list_info_supplements, FormatDescriptor, FormatPlan, ParsedRow,
    ParsedSlot, PlanFieldState, PlanPurpose,
};
use libtmux::json;
use libtmux::json::{Json, Number};
use libtmux::query::expression::FilterExpr;
use libtmux::query::fields::{BoolField, EnumField, IntegerField, TextField};
use libtmux::query::filterable::{FilterEnum, Filterable};
use libtmux::query::private::{bool_field, enum_field, integer_field, text_field};
use libtmux::snapshot::client_info::{hydrate_client_info, ClientFields, ClientInfo};
use libtmux::snapshot::hydrator::{decode_ascii, decode_text, validate_planned_row};
use libtmux::snapshot::pane_info::{hydrate_pane_info, PaneFields, PaneInfo};
use libtmux::snapshot::projection::{
    hydrate_pane_projection, hydrate_pane_projections, hydrate_pane_projections_from_stdout,
    hydrate_window_projection, hydrate_window_projections, hydrate_window_projections_from_stdout,
    pane_projection_plan, window_projection_plan, PaneProjection, WindowLink, WindowProjection,
};
use libtmux::snapshot::selection::{
    holder_session_ids, select_local_window_projection, PointSelectionError,
};
use libtmux::snapshot::session_info::{hydrate_session_info, SessionFields, SessionInfo};
use libtmux::snapshot::value::{Availability, PaneProgressState};
use libtmux::snapshot::window_info::{hydrate_window_info, WindowFields, WindowInfo};
use libtmux::target::{PaneId, ServerIdentity, SessionId, WindowId, WindowLinkIdentity};
use libtmux::text::TmuxText;
use libtmux::version::TmuxVersion;

fn ascii_descriptor() -> FormatDescriptor {
    FormatDescriptor::Named { name: "ascii", decoder: DecoderKind::Ascii }
}

fn text_descriptor() -> FormatDescriptor {
    FormatDescriptor::Named { name: "text", decoder: DecoderKind::Text }
}

fn first_text_descriptor() -> FormatDescriptor {
    FormatDescriptor::Named { name: "first", decoder: DecoderKind::Text }
}

fn second_ascii_descriptor() -> FormatDescriptor {
    FormatDescriptor::Named { name: "second", decoder: DecoderKind::Ascii }
}

const SHORT_SENTINEL: &str = "zot-private";
const LONG_SENTINEL: &str = "quartz-private-payload-with-a-distinct-and-deliberately-long-shape";
const CONTROL_SENTINEL: [u8; 3] = [0x02, 0x03, 0x04];
const INVALID_UTF8_SENTINEL: [u8; 2] = [0xf5, 0xff];

fn plan(descriptors: Vec<FormatDescriptor>) -> FormatPlan {
    FormatPlan::for_codec(&descriptors)
        .ok()
        .expect("non-empty static descriptor plan is valid")
}

fn rows(plan: &FormatPlan, stdout: &[u8]) -> Vec<ParsedRow> {
    plan.parse_rows(stdout)
        .ok()
        .expect("fixture is a valid framed row stream")
}

fn error<T>(result: Result<T, FormatCodecError>) -> FormatCodecError {
    result.err().expect("fixture is rejected")
}

fn decode_ascii_signature(slot: &ParsedSlot) -> Result<TmuxText, FormatCodecError> {
    decode_ascii(slot)
}

fn decode_text_signature(slot: &ParsedSlot) -> TmuxText {
    decode_text(slot)
}

fn assert_safe_diagnostic(error: &FormatCodecError) {
    let debug = format!("{error:?}");
    for rendered in [&debug] {
        assert!(!rendered.contains(SHORT_SENTINEL));
        assert!(!rendered.contains(LONG_SENTINEL));
        assert!(
            !rendered
                .as_bytes()
                .windows(CONTROL_SENTINEL.len())
                .any(|window| window == CONTROL_SENTINEL)
        );
        assert!(!rendered.contains("[2, 3, 4]"));
        assert!(!rendered.contains("\\x02\\x03\\x04"));
        assert!(!rendered.contains("[245, 255]"));
        assert!(!rendered.contains("2, 3, 4, 95, 245, 255"));
        assert!(!rendered.contains("0xf5"));
        assert!(!rendered.contains("0xff"));
        assert!(!rendered.contains("\\xf5"));
        assert!(!rendered.contains("\\xff"));
        assert!(!rendered.contains('\u{fffd}'));
    }
}

fn assert_non_ascii_error(
    error: &FormatCodecError,
    row: usize,
    field: usize,
    field_name: &'static str,
    offset: usize,
) {
    assert_eq!(error.kind(), FormatCodecErrorKind::NonAscii);
    assert_eq!(error.phase(), FormatCodecPhase::Decode);
    assert_eq!(error.row(), Some(row));
    assert_eq!(error.field(), Some(field));
    assert_eq!(error.field_name(), Some(field_name));
    assert_eq!(error.expected(), Some(DecoderKind::Ascii));
    assert_eq!(error.offset(), Some(offset));
    assert_eq!(error.profile(), None);
    assert_safe_diagnostic(error);
}

fn version(raw: &[u8]) -> TmuxVersion {
    TmuxVersion::parse_output(raw)
        .ok()
        .expect("snapshot fixture version is valid")
}

fn default_value(descriptor: &FormatDescriptor) -> &'static [u8] {
    match descriptor.name() {
        "session_id" => b"$1",
        "window_id" => b"@1",
        "pane_id" => b"%1",
        "client_name" => b"client",
        _ => match descriptor.decoder() {
            DecoderKind::Ascii => b"ascii",
            DecoderKind::Text => b"text",
            DecoderKind::Bool
            | DecoderKind::U8
            | DecoderKind::U32
            | DecoderKind::U64
            | DecoderKind::I32
            | DecoderKind::Timestamp
            | DecoderKind::PaneProgress => b"0",
            DecoderKind::SessionId => b"$1",
            DecoderKind::WindowId => b"@1",
            DecoderKind::PaneId => b"%1",
            DecoderKind::PaneProgressState => b"normal",
        },
    }
}

fn push_q_field(stdout: &mut Vec<u8>, value: &[u8]) {
    for byte in value {
        if matches!(*byte, b'\\' | b'%') {
            stdout.push(b'\\');
        }
        stdout.push(*byte);
    }
    stdout.push(b'%');
}

fn framed_row(
    plan: &FormatPlan,
    overrides: &[(&str, &[u8])],
) -> (Vec<u8>, std::collections::BTreeMap<&'static str, usize>) {
    let mut stdout = Vec::new();
    let mut offsets = std::collections::BTreeMap::new();
    for descriptor in plan.selected() {
        offsets.insert(descriptor.name(), stdout.len());
        let value = overrides
            .iter()
            .find_map(|(name, value)| (*name == descriptor.name()).then_some(*value))
            .unwrap_or_else(|| default_value(&descriptor));
        push_q_field(&mut stdout, value);
    }
    stdout.push(b'\n');
    (stdout, offsets)
}

fn parsed_row(
    plan: &FormatPlan,
    overrides: &[(&str, &[u8])],
) -> (ParsedRow, std::collections::BTreeMap<&'static str, usize>) {
    let (stdout, offsets) = framed_row(plan, overrides);
    let mut rows = plan
        .parse_rows(&stdout)
        .ok()
        .expect("snapshot fixture is framed by the real parser");
    assert_eq!(rows.len(), 1);
    (rows.remove(0), offsets)
}

fn session_fixture(
    raw_version: &[u8],
    overrides: &[(&str, &[u8])],
) -> Result<SessionInfo, FormatCodecError> {
    let plan = FormatPlan::for_profile(ListProfile::Sessions, &version(raw_version));
    let (row, _) = parsed_row(&plan, overrides);
    hydrate_session_info(&plan, &row)
}

fn window_fixture(
    raw_version: &[u8],
    overrides: &[(&str, &[u8])],
) -> Result<WindowInfo, FormatCodecError> {
    let plan = FormatPlan::for_profile(ListProfile::Windows, &version(raw_version));
    let (row, _) = parsed_row(&plan, overrides);
    hydrate_window_info(&plan, &row)
}

fn pane_fixture(
    raw_version: &[u8],
    overrides: &[(&str, &[u8])],
) -> Result<PaneInfo, FormatCodecError> {
    let plan = FormatPlan::for_profile(ListProfile::Panes, &version(raw_version));
    let (row, _) = parsed_row(&plan, overrides);
    hydrate_pane_info(&plan, &row)
}

fn client_fixture(
    raw_version: &[u8],
    overrides: &[(&str, &[u8])],
) -> Result<ClientInfo, FormatCodecError> {
    let plan = FormatPlan::for_profile(ListProfile::Clients, &version(raw_version));
    let (row, _) = parsed_row(&plan, overrides);
    hydrate_client_info(&plan, &row)
}

fn assert_invalid_value(
    error: &FormatCodecError,
    plan: &FormatPlan,
    offsets: &std::collections::BTreeMap<&'static str, usize>,
    field_name: &'static str,
    expected: DecoderKind,
) {
    let field = plan
        .selected()
        .iter()
        .position(|descriptor| descriptor.name() == field_name)
        .expect("tested field is selected");
    assert_eq!(error.kind(), FormatCodecErrorKind::InvalidValue);
    assert_eq!(error.phase(), FormatCodecPhase::Decode);
    assert_eq!(error.row(), Some(0));
    assert_eq!(error.field(), Some(field));
    assert_eq!(error.field_name(), Some(field_name));
    assert_eq!(error.expected(), Some(expected));
    assert_eq!(error.offset(), offsets.get(field_name).copied());
    assert_eq!(error.profile(), None);
    assert_safe_diagnostic(error);
}

#[test]
fn format_codec_decoder_function_signatures_consume_parsed_slots() {
    let ascii: for<'row> fn(&'row ParsedSlot) -> Result<TmuxText, FormatCodecError> = decode_ascii;
    let text: for<'row> fn(&'row ParsedSlot) -> TmuxText = decode_text;
    let generic_ascii: fn(&ParsedSlot) -> Result<TmuxText, FormatCodecError> =
        decode_ascii_signature;
    let generic_text: fn(&ParsedSlot) -> TmuxText = decode_text_signature;

    let _ = (ascii, text, generic_ascii, generic_text);
}

#[test]
fn format_codec_ascii_accepts_controls_and_ascii_boundaries() {
    let plan = plan(vec![ascii_descriptor()]);
    let parsed = rows(&plan, b"\x01A\x7f%\n");
    let slot = parsed[0].slot(0).expect("one slot exists");
    let decoded = decode_ascii(slot)
        .ok()
        .expect("all ASCII bytes are accepted");

    assert_eq!(decoded.as_bytes(), b"\x01A\x7f");
}

#[test]
fn format_codec_ascii_rejects_raw_and_utf8_non_ascii_bytes() {
    let plan = plan(vec![ascii_descriptor()]);
    for stdout in [b"\x80%\n".as_slice(), b"\xc3\xa9%\n".as_slice()] {
        let parsed = rows(&plan, stdout);
        let slot = parsed[0].slot(0).expect("one slot exists");
        let error = error(decode_ascii(slot));
        assert_non_ascii_error(&error, 0, 0, "ascii", 0);
    }
}

#[test]
fn format_codec_ascii_error_diagnostics_do_not_retain_slot_payload() {
    let mut stdout = Vec::new();
    stdout.extend_from_slice(SHORT_SENTINEL.as_bytes());
    stdout.push(b'_');
    stdout.extend_from_slice(LONG_SENTINEL.as_bytes());
    stdout.push(b'_');
    stdout.extend_from_slice(&CONTROL_SENTINEL);
    stdout.push(b'_');
    stdout.extend_from_slice(&INVALID_UTF8_SENTINEL);
    stdout.extend_from_slice(b"%\n");

    let plan = plan(vec![ascii_descriptor()]);
    let parsed = rows(&plan, &stdout);
    let slot = parsed[0].slot(0).expect("one slot exists");
    let error = error(decode_ascii(slot));
    assert_non_ascii_error(&error, 0, 0, "ascii", 0);
}

#[test]
fn format_codec_ascii_error_uses_later_raw_row_field_and_slot_offset() {
    let plan = plan(vec![first_text_descriptor(), second_ascii_descriptor()]);
    let parsed = rows(&plan, b"x%y%\na\\%b%\x80%\n");
    let slot = parsed[1].slot(1)
        .expect("later row has a second slot");
    let error = error(decode_ascii(slot));

    assert_non_ascii_error(&error, 1, 1, "second", 10);
}

#[test]
fn format_codec_text_preserves_empty_controls_and_non_utf8_bytes() {
    let plan = plan(vec![text_descriptor()]);
    let cases: &[(&[u8], &[u8])] = &[
        (b"%\n", b""),
        (b"\n%\n", b"\n"),
        (b"\r%\n", b"\r"),
        (b"\x01\x7f%\n", b"\x01\x7f"),
        (b"\x80\xff%\n", b"\x80\xff"),
    ];

    for (stdout, expected) in cases {
        let parsed = rows(&plan, stdout);
        let slot = parsed[0].slot(0).expect("one slot exists");
        let decoded = decode_text(slot);
        assert_eq!(decoded.as_bytes(), *expected);
    }
}

fn assert_snapshot_traits<T: Clone + Eq + PartialEq>() {}

fn assert_progress_traits<T: Clone + Copy + std::fmt::Debug + Eq + PartialEq>() {}

fn assert_availability_variants_are_exact<T>(value: Availability<T>) {
    match value {
        Availability::Unsupported => {}
        Availability::Unproven => {}
        Availability::Absent => {}
        Availability::Available(_) => {}
    }
}

fn assert_progress_variants_are_exact(value: PaneProgressState) {
    match value {
        PaneProgressState::Hidden => {}
        PaneProgressState::Normal => {}
        PaneProgressState::Error => {}
        PaneProgressState::Indeterminate => {}
        PaneProgressState::Paused => {}
        _ => unreachable!("a sixth progress state"),
    }
}

/// The snapshot holds exactly these fields, in this order.
fn assert_catalog_names(placement: InfoPlacement, expected: &[&str]) {
    let names: Vec<&str> = list_info_descriptors(placement)
        .iter()
        .map(|descriptor| descriptor.name())
        .collect();
    assert_eq!(names, expected);
}

fn generated_fields<T: Filterable>() -> T::Fields {
    T::filter_fields()
}

#[test]
fn snapshot_catalog_info_and_scalar_handle_shapes_are_exact() {
    assert_snapshot_traits::<Availability<TmuxText>>();
    assert_snapshot_traits::<SessionInfo>();
    assert_snapshot_traits::<WindowInfo>();
    assert_snapshot_traits::<PaneInfo>();
    assert_snapshot_traits::<ClientInfo>();
    assert_progress_traits::<PaneProgressState>();
    assert_availability_variants_are_exact::<TmuxText>(Availability::Unsupported);
    assert_progress_variants_are_exact(PaneProgressState::Hidden);
    assert_eq!(
        PaneProgressState::filter_variants(),
        ["hidden", "normal", "error", "indeterminate", "paused"]
    );

    let session = session_fixture(b"tmux 3.7\n", &[])
        .ok()
        .expect("complete SessionInfo hydrates");
    let window = window_fixture(b"tmux 3.7\n", &[])
        .ok()
        .expect("complete WindowInfo hydrates");
    let pane = pane_fixture(b"tmux 3.7\n", &[])
        .ok()
        .expect("complete PaneInfo hydrates");
    let client = client_fixture(b"tmux 3.7\n", &[])
        .ok()
        .expect("complete ClientInfo hydrates");

    let _: &SessionId = session.session_id();
    let _: &i64 = session.session_activity();
    let _: &i64 = session.session_created();
    let _: Availability<&i64> = session.session_last_attached();
    let _: &u32 = session.session_attached();
    let _: &u32 = session.session_windows();
    let _: &bool = session.session_many_attached();
    let _: &TmuxText = session.session_name();
    let _: &TmuxText = session.session_path();

    let _: &WindowId = window.window_id();
    let _: &i64 = window.window_activity();
    let _: &u32 = window.window_cell_height();
    let _: &u32 = window.window_cell_width();
    let _: &u32 = window.window_height();
    let _: &u32 = window.window_panes();
    let _: &u32 = window.window_width();
    let _: &bool = window.window_zoomed_flag();
    let _: &TmuxText = window.window_layout();
    let _: &TmuxText = window.window_name();
    let _: &TmuxText = window.window_visible_layout();

    let _: &PaneId = pane.pane_id();
    let _: &i32 = pane.pane_bottom();
    let _: &i32 = pane.pane_left();
    let _: &i32 = pane.pane_right();
    let _: &i32 = pane.pane_top();
    let _: Availability<&i32> = pane.pane_x();
    let _: Availability<&i32> = pane.pane_y();
    let _: Availability<&u8> = pane.pane_dead_status();
    let _: Availability<&u8> = pane.pane_pb_progress();
    let _: &u32 = pane.alternate_saved_x();
    let _: &u32 = pane.alternate_saved_y();
    let _: &u32 = pane.cursor_x();
    let _: &u32 = pane.cursor_y();
    let _: &u32 = pane.history_limit();
    let _: &u32 = pane.history_size();
    let _: &u32 = pane.pane_height();
    let _: &u32 = pane.pane_in_mode();
    let _: &u32 = pane.pane_index();
    let _: &u32 = pane.pane_pid();
    let _: &u32 = pane.pane_width();
    let _: &u32 = pane.scroll_region_lower();
    let _: &u32 = pane.scroll_region_upper();
    let _: Availability<&u32> = pane.pane_pipe_pid();
    let _: Availability<&u32> = pane.pane_z();
    let _: &u64 = pane.history_bytes();
    let _: Availability<&i64> = pane.pane_dead_time();
    let _: &bool = pane.cursor_flag();
    let _: &bool = pane.insert_flag();
    let _: &bool = pane.keypad_cursor_flag();
    let _: &bool = pane.keypad_flag();
    let _: &bool = pane.mouse_all_flag();
    let _: &bool = pane.mouse_any_flag();
    let _: &bool = pane.mouse_button_flag();
    let _: &bool = pane.mouse_sgr_flag();
    let _: &bool = pane.mouse_standard_flag();
    let _: &bool = pane.origin_flag();
    let _: &bool = pane.pane_active();
    let _: &bool = pane.pane_at_bottom();
    let _: &bool = pane.pane_at_left();
    let _: &bool = pane.pane_at_right();
    let _: &bool = pane.pane_at_top();
    let _: &bool = pane.pane_dead();
    let _: &bool = pane.pane_input_off();
    let _: &bool = pane.pane_last();
    let _: &bool = pane.pane_marked();
    let _: &bool = pane.pane_pipe();
    let _: &bool = pane.pane_synchronized();
    let _: &bool = pane.wrap_flag();
    let _: Availability<&bool> = pane.bracket_paste_flag();
    let _: Availability<&bool> = pane.pane_floating_flag();
    let _: Availability<&bool> = pane.pane_unseen_changes();
    let _: Availability<&bool> = pane.pane_zoomed_flag();
    let _: Availability<&bool> = pane.synchronized_output_flag();
    let _: &TmuxText = pane.pane_bg();
    let _: &TmuxText = pane.pane_fg();
    let _: &TmuxText = pane.pane_path();
    let _: &TmuxText = pane.pane_search_string();
    let _: &TmuxText = pane.pane_start_command();
    let _: &TmuxText = pane.pane_tabs();
    let _: &TmuxText = pane.pane_title();
    let _: &TmuxText = pane.pane_tty();
    let _: Availability<&TmuxText> = pane.cursor_character();
    let _: Availability<&TmuxText> = pane.pane_current_command();
    let _: Availability<&TmuxText> = pane.pane_current_path();
    let _: Availability<&TmuxText> = pane.pane_dead_signal();
    let _: Availability<&TmuxText> = pane.pane_flags();
    let _: Availability<&TmuxText> = pane.pane_mode();
    let _: Availability<&TmuxText> = pane.pane_start_path();
    let _: Availability<&PaneProgressState> = pane.pane_pb_state();

    let _: &TmuxText = client.client_name();
    let _: &i64 = client.client_activity();
    let _: &i64 = client.client_created();
    let _: &u32 = client.client_pid();
    let _: &u32 = client.client_width();
    let _: Availability<&u32> = client.client_cell_height();
    let _: Availability<&u32> = client.client_cell_width();
    let _: Availability<&u32> = client.client_height();
    let _: Availability<&u32> = client.client_uid();
    let _: &u64 = client.client_discarded();
    let _: &u64 = client.client_written();
    let _: &bool = client.client_control_mode();
    let _: &bool = client.client_prefix();
    let _: &bool = client.client_readonly();
    let _: &bool = client.client_utf8();
    let _: &TmuxText = client.client_flags();
    let _: &TmuxText = client.client_key_table();
    let _: &TmuxText = client.client_termfeatures();
    let _: &TmuxText = client.client_termname();
    let _: &TmuxText = client.client_termtype();
    let _: &TmuxText = client.client_tty();
    let _: Availability<&TmuxText> = client.client_user();

    let session_fields: SessionFields<SessionInfo> = generated_fields::<SessionInfo>();
    let window_fields: WindowFields<WindowInfo> = generated_fields::<WindowInfo>();
    let pane_fields: PaneFields<PaneInfo> = generated_fields::<PaneInfo>();
    let client_fields: ClientFields<ClientInfo> = generated_fields::<ClientInfo>();
    assert_eq!(SessionInfo::filter_target(), "session");
    assert_eq!(WindowInfo::filter_target(), "window");
    assert_eq!(PaneInfo::filter_target(), "pane");
    assert_eq!(ClientInfo::filter_target(), "client");

    assert_catalog_names(InfoPlacement::SessionInfo, &[
        "session_id",
        "session_activity",
        "session_attached",
        "session_created",
        "session_last_attached",
        "session_many_attached",
        "session_name",
        "session_path",
        "session_windows",
    ]);
    let _ = session.session_id();
    let _ = session.session_activity();
    let _ = session.session_attached();
    let _ = session.session_created();
    let _ = session.session_last_attached();
    let _ = session.session_many_attached();
    let _ = session.session_name();
    let _ = session.session_path();
    let _ = session.session_windows();
    let SessionFields {
        session_id: _,
        session_activity: _,
        session_attached: _,
        session_created: _,
        session_last_attached: _,
        session_many_attached: _,
        session_name: _,
        session_path: _,
        session_windows: _,
    } = &session_fields;
    assert_catalog_names(InfoPlacement::WindowInfo, &[
        "window_id",
        "window_activity",
        "window_cell_height",
        "window_cell_width",
        "window_height",
        "window_layout",
        "window_name",
        "window_panes",
        "window_visible_layout",
        "window_width",
        "window_zoomed_flag",
    ]);
    let _ = window.window_id();
    let _ = window.window_activity();
    let _ = window.window_cell_height();
    let _ = window.window_cell_width();
    let _ = window.window_height();
    let _ = window.window_layout();
    let _ = window.window_name();
    let _ = window.window_panes();
    let _ = window.window_visible_layout();
    let _ = window.window_width();
    let _ = window.window_zoomed_flag();
    let WindowFields {
        window_id: _,
        window_activity: _,
        window_cell_height: _,
        window_cell_width: _,
        window_height: _,
        window_layout: _,
        window_name: _,
        window_panes: _,
        window_visible_layout: _,
        window_width: _,
        window_zoomed_flag: _,
    } = &window_fields;
    assert_catalog_names(InfoPlacement::PaneInfo, &[
        "pane_id",
        "alternate_saved_x",
        "alternate_saved_y",
        "bracket_paste_flag",
        "cursor_character",
        "cursor_flag",
        "cursor_x",
        "cursor_y",
        "history_bytes",
        "history_limit",
        "history_size",
        "insert_flag",
        "keypad_cursor_flag",
        "keypad_flag",
        "mouse_all_flag",
        "mouse_any_flag",
        "mouse_button_flag",
        "mouse_sgr_flag",
        "mouse_standard_flag",
        "origin_flag",
        "pane_active",
        "pane_at_bottom",
        "pane_at_left",
        "pane_at_right",
        "pane_at_top",
        "pane_bg",
        "pane_bottom",
        "pane_current_command",
        "pane_current_path",
        "pane_dead",
        "pane_dead_signal",
        "pane_dead_status",
        "pane_dead_time",
        "pane_fg",
        "pane_flags",
        "pane_floating_flag",
        "pane_height",
        "pane_in_mode",
        "pane_index",
        "pane_input_off",
        "pane_last",
        "pane_left",
        "pane_marked",
        "pane_mode",
        "pane_path",
        "pane_pb_progress",
        "pane_pb_state",
        "pane_pid",
        "pane_pipe",
        "pane_pipe_pid",
        "pane_right",
        "pane_search_string",
        "pane_start_command",
        "pane_start_path",
        "pane_synchronized",
        "pane_tabs",
        "pane_title",
        "pane_top",
        "pane_tty",
        "pane_unseen_changes",
        "pane_width",
        "pane_x",
        "pane_y",
        "pane_z",
        "pane_zoomed_flag",
        "scroll_region_lower",
        "scroll_region_upper",
        "synchronized_output_flag",
        "wrap_flag",
    ]);
    let _ = pane.pane_id();
    let _ = pane.alternate_saved_x();
    let _ = pane.alternate_saved_y();
    let _ = pane.bracket_paste_flag();
    let _ = pane.cursor_character();
    let _ = pane.cursor_flag();
    let _ = pane.cursor_x();
    let _ = pane.cursor_y();
    let _ = pane.history_bytes();
    let _ = pane.history_limit();
    let _ = pane.history_size();
    let _ = pane.insert_flag();
    let _ = pane.keypad_cursor_flag();
    let _ = pane.keypad_flag();
    let _ = pane.mouse_all_flag();
    let _ = pane.mouse_any_flag();
    let _ = pane.mouse_button_flag();
    let _ = pane.mouse_sgr_flag();
    let _ = pane.mouse_standard_flag();
    let _ = pane.origin_flag();
    let _ = pane.pane_active();
    let _ = pane.pane_at_bottom();
    let _ = pane.pane_at_left();
    let _ = pane.pane_at_right();
    let _ = pane.pane_at_top();
    let _ = pane.pane_bg();
    let _ = pane.pane_bottom();
    let _ = pane.pane_current_command();
    let _ = pane.pane_current_path();
    let _ = pane.pane_dead();
    let _ = pane.pane_dead_signal();
    let _ = pane.pane_dead_status();
    let _ = pane.pane_dead_time();
    let _ = pane.pane_fg();
    let _ = pane.pane_flags();
    let _ = pane.pane_floating_flag();
    let _ = pane.pane_height();
    let _ = pane.pane_in_mode();
    let _ = pane.pane_index();
    let _ = pane.pane_input_off();
    let _ = pane.pane_last();
    let _ = pane.pane_left();
    let _ = pane.pane_marked();
    let _ = pane.pane_mode();
    let _ = pane.pane_path();
    let _ = pane.pane_pb_progress();
    let _ = pane.pane_pb_state();
    let _ = pane.pane_pid();
    let _ = pane.pane_pipe();
    let _ = pane.pane_pipe_pid();
    let _ = pane.pane_right();
    let _ = pane.pane_search_string();
    let _ = pane.pane_start_command();
    let _ = pane.pane_start_path();
    let _ = pane.pane_synchronized();
    let _ = pane.pane_tabs();
    let _ = pane.pane_title();
    let _ = pane.pane_top();
    let _ = pane.pane_tty();
    let _ = pane.pane_unseen_changes();
    let _ = pane.pane_width();
    let _ = pane.pane_x();
    let _ = pane.pane_y();
    let _ = pane.pane_z();
    let _ = pane.pane_zoomed_flag();
    let _ = pane.scroll_region_lower();
    let _ = pane.scroll_region_upper();
    let _ = pane.synchronized_output_flag();
    let _ = pane.wrap_flag();
    let PaneFields {
        pane_id: _,
        alternate_saved_x: _,
        alternate_saved_y: _,
        bracket_paste_flag: _,
        cursor_character: _,
        cursor_flag: _,
        cursor_x: _,
        cursor_y: _,
        history_bytes: _,
        history_limit: _,
        history_size: _,
        insert_flag: _,
        keypad_cursor_flag: _,
        keypad_flag: _,
        mouse_all_flag: _,
        mouse_any_flag: _,
        mouse_button_flag: _,
        mouse_sgr_flag: _,
        mouse_standard_flag: _,
        origin_flag: _,
        pane_active: _,
        pane_at_bottom: _,
        pane_at_left: _,
        pane_at_right: _,
        pane_at_top: _,
        pane_bg: _,
        pane_bottom: _,
        pane_current_command: _,
        pane_current_path: _,
        pane_dead: _,
        pane_dead_signal: _,
        pane_dead_status: _,
        pane_dead_time: _,
        pane_fg: _,
        pane_flags: _,
        pane_floating_flag: _,
        pane_height: _,
        pane_in_mode: _,
        pane_index: _,
        pane_input_off: _,
        pane_last: _,
        pane_left: _,
        pane_marked: _,
        pane_mode: _,
        pane_path: _,
        pane_pb_progress: _,
        pane_pb_state: _,
        pane_pid: _,
        pane_pipe: _,
        pane_pipe_pid: _,
        pane_right: _,
        pane_search_string: _,
        pane_start_command: _,
        pane_start_path: _,
        pane_synchronized: _,
        pane_tabs: _,
        pane_title: _,
        pane_top: _,
        pane_tty: _,
        pane_unseen_changes: _,
        pane_width: _,
        pane_x: _,
        pane_y: _,
        pane_z: _,
        pane_zoomed_flag: _,
        scroll_region_lower: _,
        scroll_region_upper: _,
        synchronized_output_flag: _,
        wrap_flag: _,
    } = &pane_fields;
    assert_catalog_names(InfoPlacement::ClientInfo, &[
        "client_name",
        "client_activity",
        "client_cell_height",
        "client_cell_width",
        "client_control_mode",
        "client_created",
        "client_discarded",
        "client_flags",
        "client_height",
        "client_key_table",
        "client_pid",
        "client_prefix",
        "client_readonly",
        "client_termfeatures",
        "client_termname",
        "client_termtype",
        "client_tty",
        "client_uid",
        "client_user",
        "client_utf8",
        "client_width",
        "client_written",
    ]);
    let _ = client.client_name();
    let _ = client.client_activity();
    let _ = client.client_cell_height();
    let _ = client.client_cell_width();
    let _ = client.client_control_mode();
    let _ = client.client_created();
    let _ = client.client_discarded();
    let _ = client.client_flags();
    let _ = client.client_height();
    let _ = client.client_key_table();
    let _ = client.client_pid();
    let _ = client.client_prefix();
    let _ = client.client_readonly();
    let _ = client.client_termfeatures();
    let _ = client.client_termname();
    let _ = client.client_termtype();
    let _ = client.client_tty();
    let _ = client.client_uid();
    let _ = client.client_user();
    let _ = client.client_utf8();
    let _ = client.client_width();
    let _ = client.client_written();
    let ClientFields {
        client_name: _,
        client_activity: _,
        client_cell_height: _,
        client_cell_width: _,
        client_control_mode: _,
        client_created: _,
        client_discarded: _,
        client_flags: _,
        client_height: _,
        client_key_table: _,
        client_pid: _,
        client_prefix: _,
        client_readonly: _,
        client_termfeatures: _,
        client_termname: _,
        client_termtype: _,
        client_tty: _,
        client_uid: _,
        client_user: _,
        client_utf8: _,
        client_width: _,
        client_written: _,
    } = &client_fields;

    let handle: &TextField<SessionInfo> = &session_fields.session_id;
    assert!(*handle == text_field::<SessionInfo>(SessionInfo::filter_target(), "session_id"));
    let candidate = session_fixture(b"tmux 3.7\n", &[("session_id", b"$7")])
        .ok()
        .expect("distinct session_id fixture hydrates");
    assert!((*handle).eq("$7").matches(&candidate));
    let handle: &TextField<SessionInfo> = &session_fields.session_name;
    assert!(*handle == text_field::<SessionInfo>(SessionInfo::filter_target(), "session_name"));
    let candidate = session_fixture(b"tmux 3.7\n", &[("session_name", b"distinct-text")])
        .ok()
        .expect("distinct session_name fixture hydrates");
    assert!((*handle).eq("distinct-text").matches(&candidate));
    let handle: &TextField<SessionInfo> = &session_fields.session_path;
    assert!(*handle == text_field::<SessionInfo>(SessionInfo::filter_target(), "session_path"));
    let candidate = session_fixture(b"tmux 3.7\n", &[("session_path", b"distinct-text")])
        .ok()
        .expect("distinct session_path fixture hydrates");
    assert!((*handle).eq("distinct-text").matches(&candidate));
    let handle: &IntegerField<SessionInfo, i64> = &session_fields.session_activity;
    assert!(*handle == integer_field::<SessionInfo, i64>(SessionInfo::filter_target(), "session_activity"));
    let candidate = session_fixture(b"tmux 3.7\n", &[("session_activity", b"-7")])
        .ok()
        .expect("distinct session_activity fixture hydrates");
    assert!((*handle).eq(-7_i64).matches(&candidate));
    let handle: &IntegerField<SessionInfo, i64> = &session_fields.session_created;
    assert!(*handle == integer_field::<SessionInfo, i64>(SessionInfo::filter_target(), "session_created"));
    let candidate = session_fixture(b"tmux 3.7\n", &[("session_created", b"-7")])
        .ok()
        .expect("distinct session_created fixture hydrates");
    assert!((*handle).eq(-7_i64).matches(&candidate));
    let handle: &IntegerField<SessionInfo, i64> = &session_fields.session_last_attached;
    assert!(*handle == integer_field::<SessionInfo, i64>(SessionInfo::filter_target(), "session_last_attached"));
    let candidate = session_fixture(b"tmux 3.7\n", &[("session_last_attached", b"-7")])
        .ok()
        .expect("distinct session_last_attached fixture hydrates");
    assert!((*handle).eq(-7_i64).matches(&candidate));
    let handle: &IntegerField<SessionInfo, u32> = &session_fields.session_attached;
    assert!(*handle == integer_field::<SessionInfo, u32>(SessionInfo::filter_target(), "session_attached"));
    let candidate = session_fixture(b"tmux 3.7\n", &[("session_attached", b"7")])
        .ok()
        .expect("distinct session_attached fixture hydrates");
    assert!((*handle).eq(7_u32).matches(&candidate));
    let handle: &IntegerField<SessionInfo, u32> = &session_fields.session_windows;
    assert!(*handle == integer_field::<SessionInfo, u32>(SessionInfo::filter_target(), "session_windows"));
    let candidate = session_fixture(b"tmux 3.7\n", &[("session_windows", b"7")])
        .ok()
        .expect("distinct session_windows fixture hydrates");
    assert!((*handle).eq(7_u32).matches(&candidate));
    let handle: &BoolField<SessionInfo> = &session_fields.session_many_attached;
    assert!(*handle == bool_field::<SessionInfo>(SessionInfo::filter_target(), "session_many_attached"));
    let candidate = session_fixture(b"tmux 3.7\n", &[("session_many_attached", b"1")])
        .ok()
        .expect("distinct session_many_attached fixture hydrates");
    assert!((*handle).eq(true).matches(&candidate));

    let handle: &TextField<WindowInfo> = &window_fields.window_id;
    assert!(*handle == text_field::<WindowInfo>(WindowInfo::filter_target(), "window_id"));
    let candidate = window_fixture(b"tmux 3.7\n", &[("window_id", b"@7")])
        .ok()
        .expect("distinct window_id fixture hydrates");
    assert!((*handle).eq("@7").matches(&candidate));
    let handle: &TextField<WindowInfo> = &window_fields.window_layout;
    assert!(*handle == text_field::<WindowInfo>(WindowInfo::filter_target(), "window_layout"));
    let candidate = window_fixture(b"tmux 3.7\n", &[("window_layout", b"distinct-text")])
        .ok()
        .expect("distinct window_layout fixture hydrates");
    assert!((*handle).eq("distinct-text").matches(&candidate));
    let handle: &TextField<WindowInfo> = &window_fields.window_name;
    assert!(*handle == text_field::<WindowInfo>(WindowInfo::filter_target(), "window_name"));
    let candidate = window_fixture(b"tmux 3.7\n", &[("window_name", b"distinct-text")])
        .ok()
        .expect("distinct window_name fixture hydrates");
    assert!((*handle).eq("distinct-text").matches(&candidate));
    let handle: &TextField<WindowInfo> = &window_fields.window_visible_layout;
    assert!(*handle == text_field::<WindowInfo>(WindowInfo::filter_target(), "window_visible_layout"));
    let candidate = window_fixture(b"tmux 3.7\n", &[("window_visible_layout", b"distinct-text")])
        .ok()
        .expect("distinct window_visible_layout fixture hydrates");
    assert!((*handle).eq("distinct-text").matches(&candidate));
    let handle: &IntegerField<WindowInfo, i64> = &window_fields.window_activity;
    assert!(*handle == integer_field::<WindowInfo, i64>(WindowInfo::filter_target(), "window_activity"));
    let candidate = window_fixture(b"tmux 3.7\n", &[("window_activity", b"-7")])
        .ok()
        .expect("distinct window_activity fixture hydrates");
    assert!((*handle).eq(-7_i64).matches(&candidate));
    let handle: &IntegerField<WindowInfo, u32> = &window_fields.window_cell_height;
    assert!(*handle == integer_field::<WindowInfo, u32>(WindowInfo::filter_target(), "window_cell_height"));
    let candidate = window_fixture(b"tmux 3.7\n", &[("window_cell_height", b"7")])
        .ok()
        .expect("distinct window_cell_height fixture hydrates");
    assert!((*handle).eq(7_u32).matches(&candidate));
    let handle: &IntegerField<WindowInfo, u32> = &window_fields.window_cell_width;
    assert!(*handle == integer_field::<WindowInfo, u32>(WindowInfo::filter_target(), "window_cell_width"));
    let candidate = window_fixture(b"tmux 3.7\n", &[("window_cell_width", b"7")])
        .ok()
        .expect("distinct window_cell_width fixture hydrates");
    assert!((*handle).eq(7_u32).matches(&candidate));
    let handle: &IntegerField<WindowInfo, u32> = &window_fields.window_height;
    assert!(*handle == integer_field::<WindowInfo, u32>(WindowInfo::filter_target(), "window_height"));
    let candidate = window_fixture(b"tmux 3.7\n", &[("window_height", b"7")])
        .ok()
        .expect("distinct window_height fixture hydrates");
    assert!((*handle).eq(7_u32).matches(&candidate));
    let handle: &IntegerField<WindowInfo, u32> = &window_fields.window_panes;
    assert!(*handle == integer_field::<WindowInfo, u32>(WindowInfo::filter_target(), "window_panes"));
    let candidate = window_fixture(b"tmux 3.7\n", &[("window_panes", b"7")])
        .ok()
        .expect("distinct window_panes fixture hydrates");
    assert!((*handle).eq(7_u32).matches(&candidate));
    let handle: &IntegerField<WindowInfo, u32> = &window_fields.window_width;
    assert!(*handle == integer_field::<WindowInfo, u32>(WindowInfo::filter_target(), "window_width"));
    let candidate = window_fixture(b"tmux 3.7\n", &[("window_width", b"7")])
        .ok()
        .expect("distinct window_width fixture hydrates");
    assert!((*handle).eq(7_u32).matches(&candidate));
    let handle: &BoolField<WindowInfo> = &window_fields.window_zoomed_flag;
    assert!(*handle == bool_field::<WindowInfo>(WindowInfo::filter_target(), "window_zoomed_flag"));
    let candidate = window_fixture(b"tmux 3.7\n", &[("window_zoomed_flag", b"1")])
        .ok()
        .expect("distinct window_zoomed_flag fixture hydrates");
    assert!((*handle).eq(true).matches(&candidate));

    let handle: &TextField<PaneInfo> = &pane_fields.pane_id;
    assert!(*handle == text_field::<PaneInfo>(PaneInfo::filter_target(), "pane_id"));
    let candidate = pane_fixture(b"tmux 3.7\n", &[("pane_id", b"%7")])
        .ok()
        .expect("distinct pane_id fixture hydrates");
    assert!((*handle).eq("%7").matches(&candidate));
    let handle: &TextField<PaneInfo> = &pane_fields.cursor_character;
    assert!(*handle == text_field::<PaneInfo>(PaneInfo::filter_target(), "cursor_character"));
    let candidate = pane_fixture(b"tmux 3.7\n", &[("cursor_character", b"distinct-text")])
        .ok()
        .expect("distinct cursor_character fixture hydrates");
    assert!((*handle).eq("distinct-text").matches(&candidate));
    let handle: &TextField<PaneInfo> = &pane_fields.pane_bg;
    assert!(*handle == text_field::<PaneInfo>(PaneInfo::filter_target(), "pane_bg"));
    let candidate = pane_fixture(b"tmux 3.7\n", &[("pane_bg", b"distinct-text")])
        .ok()
        .expect("distinct pane_bg fixture hydrates");
    assert!((*handle).eq("distinct-text").matches(&candidate));
    let handle: &TextField<PaneInfo> = &pane_fields.pane_current_command;
    assert!(*handle == text_field::<PaneInfo>(PaneInfo::filter_target(), "pane_current_command"));
    let candidate = pane_fixture(b"tmux 3.7\n", &[("pane_current_command", b"distinct-text")])
        .ok()
        .expect("distinct pane_current_command fixture hydrates");
    assert!((*handle).eq("distinct-text").matches(&candidate));
    let handle: &TextField<PaneInfo> = &pane_fields.pane_current_path;
    assert!(*handle == text_field::<PaneInfo>(PaneInfo::filter_target(), "pane_current_path"));
    let candidate = pane_fixture(b"tmux 3.7\n", &[("pane_current_path", b"distinct-text")])
        .ok()
        .expect("distinct pane_current_path fixture hydrates");
    assert!((*handle).eq("distinct-text").matches(&candidate));
    let handle: &TextField<PaneInfo> = &pane_fields.pane_dead_signal;
    assert!(*handle == text_field::<PaneInfo>(PaneInfo::filter_target(), "pane_dead_signal"));
    let candidate = pane_fixture(b"tmux 3.7\n", &[("pane_dead_signal", b"distinct-text")])
        .ok()
        .expect("distinct pane_dead_signal fixture hydrates");
    assert!((*handle).eq("distinct-text").matches(&candidate));
    let handle: &TextField<PaneInfo> = &pane_fields.pane_fg;
    assert!(*handle == text_field::<PaneInfo>(PaneInfo::filter_target(), "pane_fg"));
    let candidate = pane_fixture(b"tmux 3.7\n", &[("pane_fg", b"distinct-text")])
        .ok()
        .expect("distinct pane_fg fixture hydrates");
    assert!((*handle).eq("distinct-text").matches(&candidate));
    let handle: &TextField<PaneInfo> = &pane_fields.pane_flags;
    assert!(*handle == text_field::<PaneInfo>(PaneInfo::filter_target(), "pane_flags"));
    let candidate = pane_fixture(b"tmux 3.7\n", &[("pane_flags", b"distinct-text")])
        .ok()
        .expect("distinct pane_flags fixture hydrates");
    assert!((*handle).eq("distinct-text").matches(&candidate));
    let handle: &TextField<PaneInfo> = &pane_fields.pane_mode;
    assert!(*handle == text_field::<PaneInfo>(PaneInfo::filter_target(), "pane_mode"));
    let candidate = pane_fixture(b"tmux 3.7\n", &[("pane_mode", b"distinct-text")])
        .ok()
        .expect("distinct pane_mode fixture hydrates");
    assert!((*handle).eq("distinct-text").matches(&candidate));
    let handle: &TextField<PaneInfo> = &pane_fields.pane_path;
    assert!(*handle == text_field::<PaneInfo>(PaneInfo::filter_target(), "pane_path"));
    let candidate = pane_fixture(b"tmux 3.7\n", &[("pane_path", b"distinct-text")])
        .ok()
        .expect("distinct pane_path fixture hydrates");
    assert!((*handle).eq("distinct-text").matches(&candidate));
    let handle: &TextField<PaneInfo> = &pane_fields.pane_search_string;
    assert!(*handle == text_field::<PaneInfo>(PaneInfo::filter_target(), "pane_search_string"));
    let candidate = pane_fixture(b"tmux 3.7\n", &[("pane_search_string", b"distinct-text")])
        .ok()
        .expect("distinct pane_search_string fixture hydrates");
    assert!((*handle).eq("distinct-text").matches(&candidate));
    let handle: &TextField<PaneInfo> = &pane_fields.pane_start_command;
    assert!(*handle == text_field::<PaneInfo>(PaneInfo::filter_target(), "pane_start_command"));
    let candidate = pane_fixture(b"tmux 3.7\n", &[("pane_start_command", b"distinct-text")])
        .ok()
        .expect("distinct pane_start_command fixture hydrates");
    assert!((*handle).eq("distinct-text").matches(&candidate));
    let handle: &TextField<PaneInfo> = &pane_fields.pane_start_path;
    assert!(*handle == text_field::<PaneInfo>(PaneInfo::filter_target(), "pane_start_path"));
    let candidate = pane_fixture(b"tmux 3.7\n", &[("pane_start_path", b"distinct-text")])
        .ok()
        .expect("distinct pane_start_path fixture hydrates");
    assert!((*handle).eq("distinct-text").matches(&candidate));
    let handle: &TextField<PaneInfo> = &pane_fields.pane_tabs;
    assert!(*handle == text_field::<PaneInfo>(PaneInfo::filter_target(), "pane_tabs"));
    let candidate = pane_fixture(b"tmux 3.7\n", &[("pane_tabs", b"distinct-text")])
        .ok()
        .expect("distinct pane_tabs fixture hydrates");
    assert!((*handle).eq("distinct-text").matches(&candidate));
    let handle: &TextField<PaneInfo> = &pane_fields.pane_title;
    assert!(*handle == text_field::<PaneInfo>(PaneInfo::filter_target(), "pane_title"));
    let candidate = pane_fixture(b"tmux 3.7\n", &[("pane_title", b"distinct-text")])
        .ok()
        .expect("distinct pane_title fixture hydrates");
    assert!((*handle).eq("distinct-text").matches(&candidate));
    let handle: &TextField<PaneInfo> = &pane_fields.pane_tty;
    assert!(*handle == text_field::<PaneInfo>(PaneInfo::filter_target(), "pane_tty"));
    let candidate = pane_fixture(b"tmux 3.7\n", &[("pane_tty", b"distinct-text")])
        .ok()
        .expect("distinct pane_tty fixture hydrates");
    assert!((*handle).eq("distinct-text").matches(&candidate));
    let handle: &IntegerField<PaneInfo, i32> = &pane_fields.pane_bottom;
    assert!(*handle == integer_field::<PaneInfo, i32>(PaneInfo::filter_target(), "pane_bottom"));
    let candidate = pane_fixture(b"tmux 3.7\n", &[("pane_bottom", b"-7")])
        .ok()
        .expect("distinct pane_bottom fixture hydrates");
    assert!((*handle).eq(-7_i32).matches(&candidate));
    let handle: &IntegerField<PaneInfo, i32> = &pane_fields.pane_left;
    assert!(*handle == integer_field::<PaneInfo, i32>(PaneInfo::filter_target(), "pane_left"));
    let candidate = pane_fixture(b"tmux 3.7\n", &[("pane_left", b"-7")])
        .ok()
        .expect("distinct pane_left fixture hydrates");
    assert!((*handle).eq(-7_i32).matches(&candidate));
    let handle: &IntegerField<PaneInfo, i32> = &pane_fields.pane_right;
    assert!(*handle == integer_field::<PaneInfo, i32>(PaneInfo::filter_target(), "pane_right"));
    let candidate = pane_fixture(b"tmux 3.7\n", &[("pane_right", b"-7")])
        .ok()
        .expect("distinct pane_right fixture hydrates");
    assert!((*handle).eq(-7_i32).matches(&candidate));
    let handle: &IntegerField<PaneInfo, i32> = &pane_fields.pane_top;
    assert!(*handle == integer_field::<PaneInfo, i32>(PaneInfo::filter_target(), "pane_top"));
    let candidate = pane_fixture(b"tmux 3.7\n", &[("pane_top", b"-7")])
        .ok()
        .expect("distinct pane_top fixture hydrates");
    assert!((*handle).eq(-7_i32).matches(&candidate));
    let handle: &IntegerField<PaneInfo, i32> = &pane_fields.pane_x;
    assert!(*handle == integer_field::<PaneInfo, i32>(PaneInfo::filter_target(), "pane_x"));
    let candidate = pane_fixture(b"tmux 3.7\n", &[("pane_x", b"-7")])
        .ok()
        .expect("distinct pane_x fixture hydrates");
    assert!((*handle).eq(-7_i32).matches(&candidate));
    let handle: &IntegerField<PaneInfo, i32> = &pane_fields.pane_y;
    assert!(*handle == integer_field::<PaneInfo, i32>(PaneInfo::filter_target(), "pane_y"));
    let candidate = pane_fixture(b"tmux 3.7\n", &[("pane_y", b"-7")])
        .ok()
        .expect("distinct pane_y fixture hydrates");
    assert!((*handle).eq(-7_i32).matches(&candidate));
    let handle: &IntegerField<PaneInfo, u8> = &pane_fields.pane_dead_status;
    assert!(*handle == integer_field::<PaneInfo, u8>(PaneInfo::filter_target(), "pane_dead_status"));
    let candidate = pane_fixture(b"tmux 3.7\n", &[("pane_dead_status", b"7")])
        .ok()
        .expect("distinct pane_dead_status fixture hydrates");
    assert!((*handle).eq(7_u8).matches(&candidate));
    let handle: &IntegerField<PaneInfo, u8> = &pane_fields.pane_pb_progress;
    assert!(*handle == integer_field::<PaneInfo, u8>(PaneInfo::filter_target(), "pane_pb_progress"));
    let candidate = pane_fixture(b"tmux 3.7\n", &[("pane_pb_progress", b"7")])
        .ok()
        .expect("distinct pane_pb_progress fixture hydrates");
    assert!((*handle).eq(7_u8).matches(&candidate));
    let handle: &IntegerField<PaneInfo, u32> = &pane_fields.alternate_saved_x;
    assert!(*handle == integer_field::<PaneInfo, u32>(PaneInfo::filter_target(), "alternate_saved_x"));
    let candidate = pane_fixture(b"tmux 3.7\n", &[("alternate_saved_x", b"7")])
        .ok()
        .expect("distinct alternate_saved_x fixture hydrates");
    assert!((*handle).eq(7_u32).matches(&candidate));
    let handle: &IntegerField<PaneInfo, u32> = &pane_fields.alternate_saved_y;
    assert!(*handle == integer_field::<PaneInfo, u32>(PaneInfo::filter_target(), "alternate_saved_y"));
    let candidate = pane_fixture(b"tmux 3.7\n", &[("alternate_saved_y", b"7")])
        .ok()
        .expect("distinct alternate_saved_y fixture hydrates");
    assert!((*handle).eq(7_u32).matches(&candidate));
    let handle: &IntegerField<PaneInfo, u32> = &pane_fields.cursor_x;
    assert!(*handle == integer_field::<PaneInfo, u32>(PaneInfo::filter_target(), "cursor_x"));
    let candidate = pane_fixture(b"tmux 3.7\n", &[("cursor_x", b"7")])
        .ok()
        .expect("distinct cursor_x fixture hydrates");
    assert!((*handle).eq(7_u32).matches(&candidate));
    let handle: &IntegerField<PaneInfo, u32> = &pane_fields.cursor_y;
    assert!(*handle == integer_field::<PaneInfo, u32>(PaneInfo::filter_target(), "cursor_y"));
    let candidate = pane_fixture(b"tmux 3.7\n", &[("cursor_y", b"7")])
        .ok()
        .expect("distinct cursor_y fixture hydrates");
    assert!((*handle).eq(7_u32).matches(&candidate));
    let handle: &IntegerField<PaneInfo, u32> = &pane_fields.history_limit;
    assert!(*handle == integer_field::<PaneInfo, u32>(PaneInfo::filter_target(), "history_limit"));
    let candidate = pane_fixture(b"tmux 3.7\n", &[("history_limit", b"7")])
        .ok()
        .expect("distinct history_limit fixture hydrates");
    assert!((*handle).eq(7_u32).matches(&candidate));
    let handle: &IntegerField<PaneInfo, u32> = &pane_fields.history_size;
    assert!(*handle == integer_field::<PaneInfo, u32>(PaneInfo::filter_target(), "history_size"));
    let candidate = pane_fixture(b"tmux 3.7\n", &[("history_size", b"7")])
        .ok()
        .expect("distinct history_size fixture hydrates");
    assert!((*handle).eq(7_u32).matches(&candidate));
    let handle: &IntegerField<PaneInfo, u32> = &pane_fields.pane_height;
    assert!(*handle == integer_field::<PaneInfo, u32>(PaneInfo::filter_target(), "pane_height"));
    let candidate = pane_fixture(b"tmux 3.7\n", &[("pane_height", b"7")])
        .ok()
        .expect("distinct pane_height fixture hydrates");
    assert!((*handle).eq(7_u32).matches(&candidate));
    let handle: &IntegerField<PaneInfo, u32> = &pane_fields.pane_in_mode;
    assert!(*handle == integer_field::<PaneInfo, u32>(PaneInfo::filter_target(), "pane_in_mode"));
    let candidate = pane_fixture(b"tmux 3.7\n", &[("pane_in_mode", b"7")])
        .ok()
        .expect("distinct pane_in_mode fixture hydrates");
    assert!((*handle).eq(7_u32).matches(&candidate));
    let handle: &IntegerField<PaneInfo, u32> = &pane_fields.pane_index;
    assert!(*handle == integer_field::<PaneInfo, u32>(PaneInfo::filter_target(), "pane_index"));
    let candidate = pane_fixture(b"tmux 3.7\n", &[("pane_index", b"7")])
        .ok()
        .expect("distinct pane_index fixture hydrates");
    assert!((*handle).eq(7_u32).matches(&candidate));
    let handle: &IntegerField<PaneInfo, u32> = &pane_fields.pane_pid;
    assert!(*handle == integer_field::<PaneInfo, u32>(PaneInfo::filter_target(), "pane_pid"));
    let candidate = pane_fixture(b"tmux 3.7\n", &[("pane_pid", b"7")])
        .ok()
        .expect("distinct pane_pid fixture hydrates");
    assert!((*handle).eq(7_u32).matches(&candidate));
    let handle: &IntegerField<PaneInfo, u32> = &pane_fields.pane_pipe_pid;
    assert!(*handle == integer_field::<PaneInfo, u32>(PaneInfo::filter_target(), "pane_pipe_pid"));
    let candidate = pane_fixture(b"tmux 3.7\n", &[("pane_pipe_pid", b"7")])
        .ok()
        .expect("distinct pane_pipe_pid fixture hydrates");
    assert!((*handle).eq(7_u32).matches(&candidate));
    let handle: &IntegerField<PaneInfo, u32> = &pane_fields.pane_width;
    assert!(*handle == integer_field::<PaneInfo, u32>(PaneInfo::filter_target(), "pane_width"));
    let candidate = pane_fixture(b"tmux 3.7\n", &[("pane_width", b"7")])
        .ok()
        .expect("distinct pane_width fixture hydrates");
    assert!((*handle).eq(7_u32).matches(&candidate));
    let handle: &IntegerField<PaneInfo, u32> = &pane_fields.pane_z;
    assert!(*handle == integer_field::<PaneInfo, u32>(PaneInfo::filter_target(), "pane_z"));
    let candidate = pane_fixture(b"tmux 3.7\n", &[("pane_z", b"7")])
        .ok()
        .expect("distinct pane_z fixture hydrates");
    assert!((*handle).eq(7_u32).matches(&candidate));
    let handle: &IntegerField<PaneInfo, u32> = &pane_fields.scroll_region_lower;
    assert!(*handle == integer_field::<PaneInfo, u32>(PaneInfo::filter_target(), "scroll_region_lower"));
    let candidate = pane_fixture(b"tmux 3.7\n", &[("scroll_region_lower", b"7")])
        .ok()
        .expect("distinct scroll_region_lower fixture hydrates");
    assert!((*handle).eq(7_u32).matches(&candidate));
    let handle: &IntegerField<PaneInfo, u32> = &pane_fields.scroll_region_upper;
    assert!(*handle == integer_field::<PaneInfo, u32>(PaneInfo::filter_target(), "scroll_region_upper"));
    let candidate = pane_fixture(b"tmux 3.7\n", &[("scroll_region_upper", b"7")])
        .ok()
        .expect("distinct scroll_region_upper fixture hydrates");
    assert!((*handle).eq(7_u32).matches(&candidate));
    let handle: &IntegerField<PaneInfo, u64> = &pane_fields.history_bytes;
    assert!(*handle == integer_field::<PaneInfo, u64>(PaneInfo::filter_target(), "history_bytes"));
    let candidate = pane_fixture(b"tmux 3.7\n", &[("history_bytes", b"7")])
        .ok()
        .expect("distinct history_bytes fixture hydrates");
    assert!((*handle).eq(7_u64).matches(&candidate));
    let handle: &IntegerField<PaneInfo, i64> = &pane_fields.pane_dead_time;
    assert!(*handle == integer_field::<PaneInfo, i64>(PaneInfo::filter_target(), "pane_dead_time"));
    let candidate = pane_fixture(b"tmux 3.7\n", &[("pane_dead_time", b"-7")])
        .ok()
        .expect("distinct pane_dead_time fixture hydrates");
    assert!((*handle).eq(-7_i64).matches(&candidate));
    let handle: &BoolField<PaneInfo> = &pane_fields.bracket_paste_flag;
    assert!(*handle == bool_field::<PaneInfo>(PaneInfo::filter_target(), "bracket_paste_flag"));
    let candidate = pane_fixture(b"tmux 3.7\n", &[("bracket_paste_flag", b"1")])
        .ok()
        .expect("distinct bracket_paste_flag fixture hydrates");
    assert!((*handle).eq(true).matches(&candidate));
    let handle: &BoolField<PaneInfo> = &pane_fields.cursor_flag;
    assert!(*handle == bool_field::<PaneInfo>(PaneInfo::filter_target(), "cursor_flag"));
    let candidate = pane_fixture(b"tmux 3.7\n", &[("cursor_flag", b"1")])
        .ok()
        .expect("distinct cursor_flag fixture hydrates");
    assert!((*handle).eq(true).matches(&candidate));
    let handle: &BoolField<PaneInfo> = &pane_fields.insert_flag;
    assert!(*handle == bool_field::<PaneInfo>(PaneInfo::filter_target(), "insert_flag"));
    let candidate = pane_fixture(b"tmux 3.7\n", &[("insert_flag", b"1")])
        .ok()
        .expect("distinct insert_flag fixture hydrates");
    assert!((*handle).eq(true).matches(&candidate));
    let handle: &BoolField<PaneInfo> = &pane_fields.keypad_cursor_flag;
    assert!(*handle == bool_field::<PaneInfo>(PaneInfo::filter_target(), "keypad_cursor_flag"));
    let candidate = pane_fixture(b"tmux 3.7\n", &[("keypad_cursor_flag", b"1")])
        .ok()
        .expect("distinct keypad_cursor_flag fixture hydrates");
    assert!((*handle).eq(true).matches(&candidate));
    let handle: &BoolField<PaneInfo> = &pane_fields.keypad_flag;
    assert!(*handle == bool_field::<PaneInfo>(PaneInfo::filter_target(), "keypad_flag"));
    let candidate = pane_fixture(b"tmux 3.7\n", &[("keypad_flag", b"1")])
        .ok()
        .expect("distinct keypad_flag fixture hydrates");
    assert!((*handle).eq(true).matches(&candidate));
    let handle: &BoolField<PaneInfo> = &pane_fields.mouse_all_flag;
    assert!(*handle == bool_field::<PaneInfo>(PaneInfo::filter_target(), "mouse_all_flag"));
    let candidate = pane_fixture(b"tmux 3.7\n", &[("mouse_all_flag", b"1")])
        .ok()
        .expect("distinct mouse_all_flag fixture hydrates");
    assert!((*handle).eq(true).matches(&candidate));
    let handle: &BoolField<PaneInfo> = &pane_fields.mouse_any_flag;
    assert!(*handle == bool_field::<PaneInfo>(PaneInfo::filter_target(), "mouse_any_flag"));
    let candidate = pane_fixture(b"tmux 3.7\n", &[("mouse_any_flag", b"1")])
        .ok()
        .expect("distinct mouse_any_flag fixture hydrates");
    assert!((*handle).eq(true).matches(&candidate));
    let handle: &BoolField<PaneInfo> = &pane_fields.mouse_button_flag;
    assert!(*handle == bool_field::<PaneInfo>(PaneInfo::filter_target(), "mouse_button_flag"));
    let candidate = pane_fixture(b"tmux 3.7\n", &[("mouse_button_flag", b"1")])
        .ok()
        .expect("distinct mouse_button_flag fixture hydrates");
    assert!((*handle).eq(true).matches(&candidate));
    let handle: &BoolField<PaneInfo> = &pane_fields.mouse_sgr_flag;
    assert!(*handle == bool_field::<PaneInfo>(PaneInfo::filter_target(), "mouse_sgr_flag"));
    let candidate = pane_fixture(b"tmux 3.7\n", &[("mouse_sgr_flag", b"1")])
        .ok()
        .expect("distinct mouse_sgr_flag fixture hydrates");
    assert!((*handle).eq(true).matches(&candidate));
    let handle: &BoolField<PaneInfo> = &pane_fields.mouse_standard_flag;
    assert!(*handle == bool_field::<PaneInfo>(PaneInfo::filter_target(), "mouse_standard_flag"));
    let candidate = pane_fixture(b"tmux 3.7\n", &[("mouse_standard_flag", b"1")])
        .ok()
        .expect("distinct mouse_standard_flag fixture hydrates");
    assert!((*handle).eq(true).matches(&candidate));
    let handle: &BoolField<PaneInfo> = &pane_fields.origin_flag;
    assert!(*handle == bool_field::<PaneInfo>(PaneInfo::filter_target(), "origin_flag"));
    let candidate = pane_fixture(b"tmux 3.7\n", &[("origin_flag", b"1")])
        .ok()
        .expect("distinct origin_flag fixture hydrates");
    assert!((*handle).eq(true).matches(&candidate));
    let handle: &BoolField<PaneInfo> = &pane_fields.pane_active;
    assert!(*handle == bool_field::<PaneInfo>(PaneInfo::filter_target(), "pane_active"));
    let candidate = pane_fixture(b"tmux 3.7\n", &[("pane_active", b"1")])
        .ok()
        .expect("distinct pane_active fixture hydrates");
    assert!((*handle).eq(true).matches(&candidate));
    let handle: &BoolField<PaneInfo> = &pane_fields.pane_at_bottom;
    assert!(*handle == bool_field::<PaneInfo>(PaneInfo::filter_target(), "pane_at_bottom"));
    let candidate = pane_fixture(b"tmux 3.7\n", &[("pane_at_bottom", b"1")])
        .ok()
        .expect("distinct pane_at_bottom fixture hydrates");
    assert!((*handle).eq(true).matches(&candidate));
    let handle: &BoolField<PaneInfo> = &pane_fields.pane_at_left;
    assert!(*handle == bool_field::<PaneInfo>(PaneInfo::filter_target(), "pane_at_left"));
    let candidate = pane_fixture(b"tmux 3.7\n", &[("pane_at_left", b"1")])
        .ok()
        .expect("distinct pane_at_left fixture hydrates");
    assert!((*handle).eq(true).matches(&candidate));
    let handle: &BoolField<PaneInfo> = &pane_fields.pane_at_right;
    assert!(*handle == bool_field::<PaneInfo>(PaneInfo::filter_target(), "pane_at_right"));
    let candidate = pane_fixture(b"tmux 3.7\n", &[("pane_at_right", b"1")])
        .ok()
        .expect("distinct pane_at_right fixture hydrates");
    assert!((*handle).eq(true).matches(&candidate));
    let handle: &BoolField<PaneInfo> = &pane_fields.pane_at_top;
    assert!(*handle == bool_field::<PaneInfo>(PaneInfo::filter_target(), "pane_at_top"));
    let candidate = pane_fixture(b"tmux 3.7\n", &[("pane_at_top", b"1")])
        .ok()
        .expect("distinct pane_at_top fixture hydrates");
    assert!((*handle).eq(true).matches(&candidate));
    let handle: &BoolField<PaneInfo> = &pane_fields.pane_dead;
    assert!(*handle == bool_field::<PaneInfo>(PaneInfo::filter_target(), "pane_dead"));
    let candidate = pane_fixture(b"tmux 3.7\n", &[("pane_dead", b"1")])
        .ok()
        .expect("distinct pane_dead fixture hydrates");
    assert!((*handle).eq(true).matches(&candidate));
    let handle: &BoolField<PaneInfo> = &pane_fields.pane_floating_flag;
    assert!(*handle == bool_field::<PaneInfo>(PaneInfo::filter_target(), "pane_floating_flag"));
    let candidate = pane_fixture(b"tmux 3.7\n", &[("pane_floating_flag", b"1")])
        .ok()
        .expect("distinct pane_floating_flag fixture hydrates");
    assert!((*handle).eq(true).matches(&candidate));
    let handle: &BoolField<PaneInfo> = &pane_fields.pane_input_off;
    assert!(*handle == bool_field::<PaneInfo>(PaneInfo::filter_target(), "pane_input_off"));
    let candidate = pane_fixture(b"tmux 3.7\n", &[("pane_input_off", b"1")])
        .ok()
        .expect("distinct pane_input_off fixture hydrates");
    assert!((*handle).eq(true).matches(&candidate));
    let handle: &BoolField<PaneInfo> = &pane_fields.pane_last;
    assert!(*handle == bool_field::<PaneInfo>(PaneInfo::filter_target(), "pane_last"));
    let candidate = pane_fixture(b"tmux 3.7\n", &[("pane_last", b"1")])
        .ok()
        .expect("distinct pane_last fixture hydrates");
    assert!((*handle).eq(true).matches(&candidate));
    let handle: &BoolField<PaneInfo> = &pane_fields.pane_marked;
    assert!(*handle == bool_field::<PaneInfo>(PaneInfo::filter_target(), "pane_marked"));
    let candidate = pane_fixture(b"tmux 3.7\n", &[("pane_marked", b"1")])
        .ok()
        .expect("distinct pane_marked fixture hydrates");
    assert!((*handle).eq(true).matches(&candidate));
    let handle: &BoolField<PaneInfo> = &pane_fields.pane_pipe;
    assert!(*handle == bool_field::<PaneInfo>(PaneInfo::filter_target(), "pane_pipe"));
    let candidate = pane_fixture(b"tmux 3.7\n", &[("pane_pipe", b"1")])
        .ok()
        .expect("distinct pane_pipe fixture hydrates");
    assert!((*handle).eq(true).matches(&candidate));
    let handle: &BoolField<PaneInfo> = &pane_fields.pane_synchronized;
    assert!(*handle == bool_field::<PaneInfo>(PaneInfo::filter_target(), "pane_synchronized"));
    let candidate = pane_fixture(b"tmux 3.7\n", &[("pane_synchronized", b"1")])
        .ok()
        .expect("distinct pane_synchronized fixture hydrates");
    assert!((*handle).eq(true).matches(&candidate));
    let handle: &BoolField<PaneInfo> = &pane_fields.pane_unseen_changes;
    assert!(*handle == bool_field::<PaneInfo>(PaneInfo::filter_target(), "pane_unseen_changes"));
    let candidate = pane_fixture(b"tmux 3.7\n", &[("pane_unseen_changes", b"1")])
        .ok()
        .expect("distinct pane_unseen_changes fixture hydrates");
    assert!((*handle).eq(true).matches(&candidate));
    let handle: &BoolField<PaneInfo> = &pane_fields.pane_zoomed_flag;
    assert!(*handle == bool_field::<PaneInfo>(PaneInfo::filter_target(), "pane_zoomed_flag"));
    let candidate = pane_fixture(b"tmux 3.7\n", &[("pane_zoomed_flag", b"1")])
        .ok()
        .expect("distinct pane_zoomed_flag fixture hydrates");
    assert!((*handle).eq(true).matches(&candidate));
    let handle: &BoolField<PaneInfo> = &pane_fields.synchronized_output_flag;
    assert!(*handle == bool_field::<PaneInfo>(PaneInfo::filter_target(), "synchronized_output_flag"));
    let candidate = pane_fixture(b"tmux 3.7\n", &[("synchronized_output_flag", b"1")])
        .ok()
        .expect("distinct synchronized_output_flag fixture hydrates");
    assert!((*handle).eq(true).matches(&candidate));
    let handle: &BoolField<PaneInfo> = &pane_fields.wrap_flag;
    assert!(*handle == bool_field::<PaneInfo>(PaneInfo::filter_target(), "wrap_flag"));
    let candidate = pane_fixture(b"tmux 3.7\n", &[("wrap_flag", b"1")])
        .ok()
        .expect("distinct wrap_flag fixture hydrates");
    assert!((*handle).eq(true).matches(&candidate));
    let handle: &EnumField<PaneInfo, PaneProgressState> = &pane_fields.pane_pb_state;
    assert!(*handle == enum_field::<PaneInfo, PaneProgressState>(PaneInfo::filter_target(), "pane_pb_state"));
    let candidate = pane_fixture(b"tmux 3.7\n", &[("pane_pb_state", b"paused")])
        .ok()
        .expect("distinct pane_pb_state fixture hydrates");
    assert!((*handle).eq(PaneProgressState::Paused).matches(&candidate));

    let handle: &TextField<ClientInfo> = &client_fields.client_name;
    assert!(*handle == text_field::<ClientInfo>(ClientInfo::filter_target(), "client_name"));
    let candidate = client_fixture(b"tmux 3.7\n", &[("client_name", b"distinct-text")])
        .ok()
        .expect("distinct client_name fixture hydrates");
    assert!((*handle).eq("distinct-text").matches(&candidate));
    let handle: &TextField<ClientInfo> = &client_fields.client_flags;
    assert!(*handle == text_field::<ClientInfo>(ClientInfo::filter_target(), "client_flags"));
    let candidate = client_fixture(b"tmux 3.7\n", &[("client_flags", b"distinct-text")])
        .ok()
        .expect("distinct client_flags fixture hydrates");
    assert!((*handle).eq("distinct-text").matches(&candidate));
    let handle: &TextField<ClientInfo> = &client_fields.client_key_table;
    assert!(*handle == text_field::<ClientInfo>(ClientInfo::filter_target(), "client_key_table"));
    let candidate = client_fixture(b"tmux 3.7\n", &[("client_key_table", b"distinct-text")])
        .ok()
        .expect("distinct client_key_table fixture hydrates");
    assert!((*handle).eq("distinct-text").matches(&candidate));
    let handle: &TextField<ClientInfo> = &client_fields.client_termfeatures;
    assert!(*handle == text_field::<ClientInfo>(ClientInfo::filter_target(), "client_termfeatures"));
    let candidate = client_fixture(b"tmux 3.7\n", &[("client_termfeatures", b"distinct-text")])
        .ok()
        .expect("distinct client_termfeatures fixture hydrates");
    assert!((*handle).eq("distinct-text").matches(&candidate));
    let handle: &TextField<ClientInfo> = &client_fields.client_termname;
    assert!(*handle == text_field::<ClientInfo>(ClientInfo::filter_target(), "client_termname"));
    let candidate = client_fixture(b"tmux 3.7\n", &[("client_termname", b"distinct-text")])
        .ok()
        .expect("distinct client_termname fixture hydrates");
    assert!((*handle).eq("distinct-text").matches(&candidate));
    let handle: &TextField<ClientInfo> = &client_fields.client_termtype;
    assert!(*handle == text_field::<ClientInfo>(ClientInfo::filter_target(), "client_termtype"));
    let candidate = client_fixture(b"tmux 3.7\n", &[("client_termtype", b"distinct-text")])
        .ok()
        .expect("distinct client_termtype fixture hydrates");
    assert!((*handle).eq("distinct-text").matches(&candidate));
    let handle: &TextField<ClientInfo> = &client_fields.client_tty;
    assert!(*handle == text_field::<ClientInfo>(ClientInfo::filter_target(), "client_tty"));
    let candidate = client_fixture(b"tmux 3.7\n", &[("client_tty", b"distinct-text")])
        .ok()
        .expect("distinct client_tty fixture hydrates");
    assert!((*handle).eq("distinct-text").matches(&candidate));
    let handle: &TextField<ClientInfo> = &client_fields.client_user;
    assert!(*handle == text_field::<ClientInfo>(ClientInfo::filter_target(), "client_user"));
    let candidate = client_fixture(b"tmux 3.7\n", &[("client_user", b"distinct-text")])
        .ok()
        .expect("distinct client_user fixture hydrates");
    assert!((*handle).eq("distinct-text").matches(&candidate));
    let handle: &IntegerField<ClientInfo, i64> = &client_fields.client_activity;
    assert!(*handle == integer_field::<ClientInfo, i64>(ClientInfo::filter_target(), "client_activity"));
    let candidate = client_fixture(b"tmux 3.7\n", &[("client_activity", b"-7")])
        .ok()
        .expect("distinct client_activity fixture hydrates");
    assert!((*handle).eq(-7_i64).matches(&candidate));
    let handle: &IntegerField<ClientInfo, i64> = &client_fields.client_created;
    assert!(*handle == integer_field::<ClientInfo, i64>(ClientInfo::filter_target(), "client_created"));
    let candidate = client_fixture(b"tmux 3.7\n", &[("client_created", b"-7")])
        .ok()
        .expect("distinct client_created fixture hydrates");
    assert!((*handle).eq(-7_i64).matches(&candidate));
    let handle: &IntegerField<ClientInfo, u32> = &client_fields.client_cell_height;
    assert!(*handle == integer_field::<ClientInfo, u32>(ClientInfo::filter_target(), "client_cell_height"));
    let candidate = client_fixture(b"tmux 3.7\n", &[("client_cell_height", b"7")])
        .ok()
        .expect("distinct client_cell_height fixture hydrates");
    assert!((*handle).eq(7_u32).matches(&candidate));
    let handle: &IntegerField<ClientInfo, u32> = &client_fields.client_cell_width;
    assert!(*handle == integer_field::<ClientInfo, u32>(ClientInfo::filter_target(), "client_cell_width"));
    let candidate = client_fixture(b"tmux 3.7\n", &[("client_cell_width", b"7")])
        .ok()
        .expect("distinct client_cell_width fixture hydrates");
    assert!((*handle).eq(7_u32).matches(&candidate));
    let handle: &IntegerField<ClientInfo, u32> = &client_fields.client_height;
    assert!(*handle == integer_field::<ClientInfo, u32>(ClientInfo::filter_target(), "client_height"));
    let candidate = client_fixture(b"tmux 3.7\n", &[("client_height", b"7")])
        .ok()
        .expect("distinct client_height fixture hydrates");
    assert!((*handle).eq(7_u32).matches(&candidate));
    let handle: &IntegerField<ClientInfo, u32> = &client_fields.client_pid;
    assert!(*handle == integer_field::<ClientInfo, u32>(ClientInfo::filter_target(), "client_pid"));
    let candidate = client_fixture(b"tmux 3.7\n", &[("client_pid", b"7")])
        .ok()
        .expect("distinct client_pid fixture hydrates");
    assert!((*handle).eq(7_u32).matches(&candidate));
    let handle: &IntegerField<ClientInfo, u32> = &client_fields.client_uid;
    assert!(*handle == integer_field::<ClientInfo, u32>(ClientInfo::filter_target(), "client_uid"));
    let candidate = client_fixture(b"tmux 3.7\n", &[("client_uid", b"7")])
        .ok()
        .expect("distinct client_uid fixture hydrates");
    assert!((*handle).eq(7_u32).matches(&candidate));
    let handle: &IntegerField<ClientInfo, u32> = &client_fields.client_width;
    assert!(*handle == integer_field::<ClientInfo, u32>(ClientInfo::filter_target(), "client_width"));
    let candidate = client_fixture(b"tmux 3.7\n", &[("client_width", b"7")])
        .ok()
        .expect("distinct client_width fixture hydrates");
    assert!((*handle).eq(7_u32).matches(&candidate));
    let handle: &IntegerField<ClientInfo, u64> = &client_fields.client_discarded;
    assert!(*handle == integer_field::<ClientInfo, u64>(ClientInfo::filter_target(), "client_discarded"));
    let candidate = client_fixture(b"tmux 3.7\n", &[("client_discarded", b"7")])
        .ok()
        .expect("distinct client_discarded fixture hydrates");
    assert!((*handle).eq(7_u64).matches(&candidate));
    let handle: &IntegerField<ClientInfo, u64> = &client_fields.client_written;
    assert!(*handle == integer_field::<ClientInfo, u64>(ClientInfo::filter_target(), "client_written"));
    let candidate = client_fixture(b"tmux 3.7\n", &[("client_written", b"7")])
        .ok()
        .expect("distinct client_written fixture hydrates");
    assert!((*handle).eq(7_u64).matches(&candidate));
    let handle: &BoolField<ClientInfo> = &client_fields.client_control_mode;
    assert!(*handle == bool_field::<ClientInfo>(ClientInfo::filter_target(), "client_control_mode"));
    let candidate = client_fixture(b"tmux 3.7\n", &[("client_control_mode", b"1")])
        .ok()
        .expect("distinct client_control_mode fixture hydrates");
    assert!((*handle).eq(true).matches(&candidate));
    let handle: &BoolField<ClientInfo> = &client_fields.client_prefix;
    assert!(*handle == bool_field::<ClientInfo>(ClientInfo::filter_target(), "client_prefix"));
    let candidate = client_fixture(b"tmux 3.7\n", &[("client_prefix", b"1")])
        .ok()
        .expect("distinct client_prefix fixture hydrates");
    assert!((*handle).eq(true).matches(&candidate));
    let handle: &BoolField<ClientInfo> = &client_fields.client_readonly;
    assert!(*handle == bool_field::<ClientInfo>(ClientInfo::filter_target(), "client_readonly"));
    let candidate = client_fixture(b"tmux 3.7\n", &[("client_readonly", b"1")])
        .ok()
        .expect("distinct client_readonly fixture hydrates");
    assert!((*handle).eq(true).matches(&candidate));
    let handle: &BoolField<ClientInfo> = &client_fields.client_utf8;
    assert!(*handle == bool_field::<ClientInfo>(ClientInfo::filter_target(), "client_utf8"));
    let candidate = client_fixture(b"tmux 3.7\n", &[("client_utf8", b"1")])
        .ok()
        .expect("distinct client_utf8 fixture hydrates");
    assert!((*handle).eq(true).matches(&candidate));
}

fn assert_available<T: std::fmt::Debug + PartialEq>(value: Availability<&T>, expected: T) {
    assert_eq!(value, Availability::Available(&expected));
}

/// The same check for a field stored flat, which carries no evidence.
fn assert_stored<T: PartialEq>(value: &T, expected: &T) {
    assert!(value == expected);
}

fn assert_pane_invalid(field: &'static str, input: &[u8], expected: DecoderKind) {
    let plan = FormatPlan::for_profile(ListProfile::Panes, &version(b"tmux 3.7\n"));
    let (row, offsets) = parsed_row(&plan, &[(field, input)]);
    let error = hydrate_pane_info(&plan, &row)
        .err()
        .expect("invalid typed Pane field is rejected");
    assert_invalid_value(&error, &plan, &offsets, field, expected);
}

fn assert_identity_invalid(profile: ListProfile, field: &'static str, input: &[u8]) {
    let plan = FormatPlan::for_profile(profile, &version(b"tmux 3.7\n"));
    let (row, offsets) = parsed_row(&plan, &[(field, input)]);
    let result = match profile {
        ListProfile::Sessions => hydrate_session_info(&plan, &row).map(|_| ()),
        ListProfile::Windows => hydrate_window_info(&plan, &row).map(|_| ()),
        ListProfile::Panes => hydrate_pane_info(&plan, &row).map(|_| ()),
        ListProfile::Clients => hydrate_client_info(&plan, &row).map(|_| ()),
    };
    let expected = match profile {
        ListProfile::Sessions => DecoderKind::SessionId,
        ListProfile::Windows => DecoderKind::WindowId,
        ListProfile::Panes => DecoderKind::PaneId,
        ListProfile::Clients => DecoderKind::Text,
    };
    let error = result.err().expect("invalid identity is rejected");
    assert_invalid_value(&error, &plan, &offsets, field, expected);
}

#[test]
fn snapshot_catalog_empty_policy_distinguishes_all_three_states() {
    let optional_numeric = pane_fixture(b"tmux 3.7\n", &[("pane_pipe_pid", b"")])
        .ok()
        .expect("empty optional numeric hydrates");
    assert_eq!(optional_numeric.pane_pipe_pid(), Availability::Absent);

    let optional_text = pane_fixture(b"tmux 3.7\n", &[("pane_mode", b"")])
        .ok()
        .expect("empty optional text hydrates");
    assert!(optional_text.pane_mode() == Availability::Absent);

    let available_text = pane_fixture(b"tmux 3.7\n", &[("pane_path", b"")])
        .ok()
        .expect("empty available text hydrates");
    assert_stored(
        available_text.pane_path(),
        &TmuxText::from_bytes(Vec::<u8>::new()),
    );

    let unsupported = pane_fixture(b"tmux 3.6\n", &[])
        .ok()
        .expect("numbered older snapshot hydrates");
    assert_eq!(unsupported.pane_pipe_pid(), Availability::Unsupported);

    let unproven = pane_fixture(b"tmux master\n", &[])
        .ok()
        .expect("development snapshot hydrates");
    assert_eq!(unproven.pane_pipe_pid(), Availability::Unproven);

    let plan = FormatPlan::for_profile(ListProfile::Panes, &version(b"tmux 3.7\n"));
    let (row, offsets) = parsed_row(&plan, &[("pane_width", b"")]);
    let error = hydrate_pane_info(&plan, &row)
        .err()
        .expect("empty required numeric is rejected");
    let field = plan
        .selected()
        .iter()
        .position(|descriptor| descriptor.name() == "pane_width")
        .expect("pane_width is selected");
    assert_eq!(error.kind(), FormatCodecErrorKind::RequiredFieldEmpty);
    assert_eq!(error.phase(), FormatCodecPhase::Decode);
    assert_eq!(error.row(), Some(0));
    assert_eq!(error.field(), Some(field));
    assert_eq!(error.field_name(), Some("pane_width"));
    assert_eq!(error.expected(), Some(DecoderKind::U32));
    assert_eq!(error.offset(), offsets.get("pane_width").copied());
    assert_eq!(error.profile(), None);
    assert_safe_diagnostic(&error);
}

#[test]
fn snapshot_catalog_typed_decoders_accept_exact_boundaries() {
    for (input, expected) in [(b"0".as_slice(), false), (b"1".as_slice(), true)] {
        let pane = pane_fixture(b"tmux 3.7\n", &[("cursor_flag", input)])
            .ok()
            .expect("canonical Bool hydrates");
        assert_stored(pane.cursor_flag(), &expected);
    }

    for (input, expected) in [(b"0".as_slice(), 0_u8), (b"255".as_slice(), u8::MAX)] {
        let pane = pane_fixture(b"tmux 3.7\n", &[("pane_dead_status", input)])
            .ok()
            .expect("bounded u8 hydrates");
        assert_available(pane.pane_dead_status(), expected);
    }

    for (input, expected) in [
        (b"0".as_slice(), 0_u32),
        (b"4294967295".as_slice(), u32::MAX),
    ] {
        let pane = pane_fixture(b"tmux 3.7\n", &[("pane_width", input)])
            .ok()
            .expect("bounded u32 hydrates");
        assert_stored(pane.pane_width(), &expected);
    }

    for (input, expected) in [
        (b"0".as_slice(), 0_u64),
        (b"18446744073709551615".as_slice(), u64::MAX),
    ] {
        let pane = pane_fixture(b"tmux 3.7\n", &[("history_bytes", input)])
            .ok()
            .expect("bounded u64 hydrates");
        assert_stored(pane.history_bytes(), &expected);
    }

    for (input, expected) in [
        (b"-2147483648".as_slice(), i32::MIN),
        (b"-1".as_slice(), -1_i32),
        (b"0".as_slice(), 0_i32),
        (b"2147483647".as_slice(), i32::MAX),
    ] {
        let pane = pane_fixture(b"tmux 3.7\n", &[("pane_left", input)])
            .ok()
            .expect("bounded i32 hydrates");
        assert_stored(pane.pane_left(), &expected);
    }

    for (input, expected) in [
        (b"-9223372036854775808".as_slice(), i64::MIN),
        (b"-1".as_slice(), -1_i64),
        (b"0".as_slice(), 0_i64),
        (b"9223372036854775807".as_slice(), i64::MAX),
    ] {
        let pane = pane_fixture(b"tmux 3.7\n", &[("pane_dead_time", input)])
            .ok()
            .expect("bounded timestamp hydrates");
        assert_available(pane.pane_dead_time(), expected);
    }

    for (input, expected) in [(b"0".as_slice(), 0_u8), (b"100".as_slice(), 100_u8)] {
        let pane = pane_fixture(b"tmux 3.7\n", &[("pane_pb_progress", input)])
            .ok()
            .expect("bounded pane progress hydrates");
        assert_available(pane.pane_pb_progress(), expected);
    }

    for (input, expected) in [
        (b"hidden".as_slice(), PaneProgressState::Hidden),
        (b"normal".as_slice(), PaneProgressState::Normal),
        (b"error".as_slice(), PaneProgressState::Error),
        (
            b"indeterminate".as_slice(),
            PaneProgressState::Indeterminate,
        ),
        (b"paused".as_slice(), PaneProgressState::Paused),
    ] {
        let pane = pane_fixture(b"tmux 3.7\n", &[("pane_pb_state", input)])
            .ok()
            .expect("known pane progress state hydrates");
        assert_available(pane.pane_pb_state(), expected);
        assert_eq!(
            expected.filter_name().as_bytes(),
            input,
            "filter spelling equals decoder spelling"
        );
    }

    let sessions = session_fixture(b"tmux 3.7\n", &[("session_id", b"$001")])
        .ok()
        .expect("SessionId accepts leading zeroes");
    let windows = window_fixture(b"tmux 3.7\n", &[("window_id", b"@001")])
        .ok()
        .expect("WindowId accepts leading zeroes");
    let panes = pane_fixture(b"tmux 3.7\n", &[("pane_id", b"%001")])
        .ok()
        .expect("PaneId accepts leading zeroes");
    assert_eq!(sessions.session_id().text(), "$1");
    assert_eq!(windows.window_id().text(), "@1");
    assert_eq!(panes.pane_id().text(), "%1");

    let sessions = session_fixture(b"tmux 3.7\n", &[("session_id", b"$4294967295")])
        .ok()
        .expect("SessionId accepts u32 maximum");
    let windows = window_fixture(b"tmux 3.7\n", &[("window_id", b"@0")])
        .ok()
        .expect("WindowId accepts zero");
    let panes = pane_fixture(b"tmux 3.7\n", &[("pane_id", b"%0")])
        .ok()
        .expect("PaneId accepts zero");
    assert_eq!(sessions.session_id().text(), "$4294967295");
    assert_eq!(windows.window_id().text(), "@0");
    assert_eq!(panes.pane_id().text(), "%0");
}

#[test]
fn snapshot_catalog_typed_decoders_reject_noncanonical_or_overflowing_values() {
    for input in [
        b"2".as_slice(),
        b"00",
        b"-1",
        b"+1",
        b" 1",
        b"1 ",
        b"\xc3\xa9",
    ] {
        assert_pane_invalid("cursor_flag", input, DecoderKind::Bool);
    }
    for input in [b"256".as_slice(), b"-1", b"01", b"+1", b" 1", b"\xc3\xa9"] {
        assert_pane_invalid("pane_dead_status", input, DecoderKind::U8);
    }
    for input in [
        b"4294967296".as_slice(),
        b"-1",
        b"01",
        b"+1",
        b"1 ",
        b"\xc3\xa9",
    ] {
        assert_pane_invalid("pane_width", input, DecoderKind::U32);
    }
    for input in [
        b"18446744073709551616".as_slice(),
        b"-1",
        b"01",
        b"+1",
        b"\t1",
        b"\xc3\xa9",
    ] {
        assert_pane_invalid("history_bytes", input, DecoderKind::U64);
    }
    for input in [
        b"-2147483649".as_slice(),
        b"2147483648",
        b"-0",
        b"-01",
        b"01",
        b"+1",
        b" 1",
        b"\xc3\xa9",
    ] {
        assert_pane_invalid("pane_left", input, DecoderKind::I32);
    }
    for input in [
        b"-9223372036854775809".as_slice(),
        b"9223372036854775808",
        b"-0",
        b"-01",
        b"01",
        b"+1",
        b"1\n",
        b"\xc3\xa9",
    ] {
        assert_pane_invalid("pane_dead_time", input, DecoderKind::Timestamp);
    }
    for input in [
        b"101".as_slice(),
        b"256",
        b"-1",
        b"01",
        b"+1",
        b" 1",
        b"1 ",
        b"\xc3\xa9",
    ] {
        assert_pane_invalid("pane_pb_progress", input, DecoderKind::PaneProgress);
    }
    for input in [b"Hidden".as_slice(), b"NORMAL", b"unknown", b"\xc3\xa9"] {
        assert_pane_invalid("pane_pb_state", input, DecoderKind::PaneProgressState);
    }

    for (profile, field, invalid) in [
        (ListProfile::Sessions, "session_id", b"$".as_slice()),
        (ListProfile::Sessions, "session_id", b"$x"),
        (ListProfile::Sessions, "session_id", b"@1"),
        (ListProfile::Sessions, "session_id", b"$4294967296"),
        (ListProfile::Sessions, "session_id", b"$\xc3\xa9"),
        (ListProfile::Windows, "window_id", b"@"),
        (ListProfile::Windows, "window_id", b"@x"),
        (ListProfile::Windows, "window_id", b"$1"),
        (ListProfile::Windows, "window_id", b"@4294967296"),
        (ListProfile::Windows, "window_id", b"@\xc3\xa9"),
        (ListProfile::Panes, "pane_id", b"%"),
        (ListProfile::Panes, "pane_id", b"%x"),
        (ListProfile::Panes, "pane_id", b"@1"),
        (ListProfile::Panes, "pane_id", b"%4294967296"),
        (ListProfile::Panes, "pane_id", b"%\xc3\xa9"),
    ] {
        assert_identity_invalid(profile, field, invalid);
    }
}

#[test]
fn snapshot_catalog_typed_error_metadata_is_payload_free() {
    let mut payload = Vec::new();
    payload.extend_from_slice(SHORT_SENTINEL.as_bytes());
    payload.push(b'_');
    payload.extend_from_slice(LONG_SENTINEL.as_bytes());
    payload.push(b'_');
    payload.extend_from_slice(&CONTROL_SENTINEL);
    payload.push(b'_');
    payload.extend_from_slice(&INVALID_UTF8_SENTINEL);

    let plan = FormatPlan::for_profile(ListProfile::Panes, &version(b"tmux 3.7\n"));
    let (row, offsets) = parsed_row(&plan, &[("pane_width", &payload)]);
    let error = hydrate_pane_info(&plan, &row)
        .err()
        .expect("sensitive typed payload is invalid");
    assert_invalid_value(&error, &plan, &offsets, "pane_width", DecoderKind::U32);
    assert!(!std::mem::needs_drop::<FormatCodecError>());
}

#[test]
fn snapshot_catalog_plan_row_mismatch_coordinates_and_precedence_are_local() {
    let forward = plan(vec![first_text_descriptor(), second_ascii_descriptor()]);
    let reverse = plan(vec![second_ascii_descriptor(), first_text_descriptor()]);
    let (row, _) = parsed_row(&forward, &[("first", b"left"), ("second", b"right")]);
    let error = validate_planned_row(&reverse, &row)
        .err()
        .expect("reversed descriptors are rejected");
    assert_eq!(error.kind(), FormatCodecErrorKind::PlanRowMismatch);
    assert_eq!(error.phase(), FormatCodecPhase::Decode);
    assert_eq!(error.row(), Some(0));
    assert_eq!(error.field(), Some(0));
    assert_eq!(error.field_name(), Some("second"));
    assert_eq!(error.expected(), None);
    assert_eq!(error.offset(), Some(0));
    assert_eq!(error.profile(), None);
    assert_safe_diagnostic(&error);

    let short_plan = plan(vec![first_text_descriptor()]);
    let long_plan = plan(vec![first_text_descriptor(), second_ascii_descriptor()]);
    let (short_row, _) = parsed_row(&short_plan, &[("first", b"x")]);
    let underflow = validate_planned_row(&long_plan, &short_row)
        .err()
        .expect("shared-prefix underflow is rejected");
    assert_eq!(underflow.kind(), FormatCodecErrorKind::PlanRowMismatch);
    assert_eq!(underflow.phase(), FormatCodecPhase::Decode);
    assert_eq!(underflow.row(), Some(0));
    assert_eq!(underflow.field(), Some(1));
    assert_eq!(underflow.field_name(), Some("second"));
    assert_eq!(underflow.expected(), None);
    assert_eq!(underflow.offset(), None);
    assert_eq!(underflow.profile(), None);
    assert_safe_diagnostic(&underflow);

    let (long_row, offsets) = parsed_row(&long_plan, &[("first", b"x"), ("second", b"y")]);
    let overflow = validate_planned_row(&short_plan, &long_row)
        .err()
        .expect("trailing actual slot is rejected");
    assert_eq!(overflow.kind(), FormatCodecErrorKind::PlanRowMismatch);
    assert_eq!(overflow.phase(), FormatCodecPhase::Decode);
    assert_eq!(overflow.row(), Some(0));
    assert_eq!(overflow.field(), Some(1));
    assert_eq!(overflow.field_name(), Some("second"));
    assert_eq!(overflow.expected(), None);
    assert_eq!(overflow.offset(), offsets.get("second").copied());
    assert_eq!(overflow.profile(), None);
    assert_safe_diagnostic(&overflow);

    let source = FormatPlan::for_descriptors(
        ListProfile::Sessions,
        &version(b"tmux 3.7\n"),
        &[session_descriptor("session_activity")],
    )
    .ok()
    .expect("source projection is in scope");
    let mismatched = FormatPlan::for_descriptors(
        ListProfile::Sessions,
        &version(b"tmux 3.7\n"),
        &[session_descriptor("session_created")],
    )
    .ok()
    .expect("mismatched projection is in scope");
    let (row, offsets) = parsed_row(&source, &[("session_id", b"invalid")]);
    let invalid_first = validate_planned_row(&mismatched, &row)
        .err()
        .expect("earlier invalid typed field wins");
    assert_invalid_value(
        &invalid_first,
        &mismatched,
        &offsets,
        "session_id",
        DecoderKind::SessionId,
    );
}

#[test]
fn snapshot_catalog_intrinsic_hydration_stops_first_and_reaches_last() {
    let plan = FormatPlan::for_profile(ListProfile::Panes, &version(b"tmux 3.7\n"));
    let (row, offsets) = parsed_row(&plan, &[("cursor_flag", b"2"), ("pane_width", b"invalid")]);
    let error = hydrate_pane_info(&plan, &row)
        .err()
        .expect("the earlier invalid selected slot is returned");
    assert_invalid_value(&error, &plan, &offsets, "cursor_flag", DecoderKind::Bool);

    assert_eq!(
        plan.selected()
            .last()
            .map(|descriptor| descriptor.name()),
        Some("wrap_flag")
    );
    let (row, _) = parsed_row(&plan, &[("wrap_flag", b"1")]);
    let pane = hydrate_pane_info(&plan, &row)
        .ok()
        .expect("the final selected slot is hydrated");
    assert_stored(pane.wrap_flag(), &true);
}

fn session_descriptor(name: &str) -> FormatDescriptor {
    list_info_descriptors(InfoPlacement::SessionInfo)
        .into_iter()
        .find(|descriptor| descriptor.name() == name)
        .expect("SessionInfo descriptor exists")
}

#[test]
fn snapshot_catalog_intrinsic_hydration_rejects_projection_or_wrong_placement() {
    let version = version(b"tmux 3.7\n");
    let projection = FormatPlan::for_descriptors(
        ListProfile::Sessions,
        &version,
        &list_info_supplements(InfoPlacement::SessionInfo),
    )
    .ok()
    .expect("complete SessionInfo descriptor projection is valid");
    let (row, _) = parsed_row(&projection, &[]);
    let error = hydrate_session_info(&projection, &row)
        .err()
        .expect("projection cannot manufacture intrinsic Info");
    assert_eq!(error.kind(), FormatCodecErrorKind::PlanRowMismatch);
    assert_eq!(error.phase(), FormatCodecPhase::Decode);
    assert_eq!(error.row(), Some(0));
    assert_eq!(error.field(), None);
    assert_eq!(error.field_name(), None);
    assert_eq!(error.expected(), None);
    assert_eq!(error.offset(), None);
    assert_eq!(error.profile(), Some(ListProfile::Sessions));
    assert_safe_diagnostic(&error);

    let windows = FormatPlan::for_profile(ListProfile::Windows, &version);
    let (row, _) = parsed_row(&windows, &[]);
    let error = hydrate_session_info(&windows, &row)
        .err()
        .expect("wrong intrinsic placement is rejected");
    assert_eq!(error.kind(), FormatCodecErrorKind::PlanRowMismatch);
    assert_eq!(error.phase(), FormatCodecPhase::Decode);
    assert_eq!(error.row(), Some(0));
    assert_eq!(error.field(), None);
    assert_eq!(error.field_name(), None);
    assert_eq!(error.expected(), None);
    assert_eq!(error.offset(), None);
    assert_eq!(error.profile(), Some(ListProfile::Windows));
    assert_safe_diagnostic(&error);
}

#[test]
fn snapshot_catalog_comma_grammars_remain_one_opaque_text_value() {
    let projection = FormatPlan::for_descriptors(
        ListProfile::Sessions,
        &version(b"tmux 3.7\n"),
        &[FormatDescriptor::Catalog(CatalogField::SessionGroupList)],
    )
    .ok()
    .expect("session group list is admitted by Session listings");
    let expected_groups = b"alpha,beta,gamma";
    let (row, _) = parsed_row(&projection, &[("session_group_list", expected_groups)]);
    let slot = row.slot(1).expect("projection has one supplement");
    assert_eq!(slot.descriptor().name(), "session_group_list");
    assert_eq!(decode_text(slot).as_bytes(), expected_groups);

    let expected_tabs = b"1,4,8,16";
    let pane = pane_fixture(b"tmux 3.7\n", &[("pane_tabs", expected_tabs)])
        .ok()
        .expect("numeric comma text hydrates");
    // pane_tabs is stored flat, so there is no state to match on: the
    // hydration that produced this snapshot already proved it present.
    assert_eq!(pane.pane_tabs().as_bytes(), expected_tabs);
}

#[test]
fn snapshot_catalog_scalar_handles_match_only_available_values() {
    let available = pane_fixture(
        b"tmux 3.7\n",
        &[
            ("cursor_flag", b"1"),
            ("history_bytes", b"9"),
            ("pane_dead_status", b"7"),
            ("pane_dead_time", b"-2"),
            ("pane_left", b"-3"),
            ("pane_path", b"/tmp/pane"),
            ("pane_pb_state", b"paused"),
            ("pane_pipe_pid", b"42"),
            ("pane_width", b"80"),
        ],
    )
    .ok()
    .expect("available scalar fixture hydrates");
    let absent = pane_fixture(b"tmux 3.7\n", &[("pane_pipe_pid", b"")])
        .ok()
        .expect("absent scalar fixture hydrates");
    let unsupported = pane_fixture(b"tmux 3.6\n", &[])
        .ok()
        .expect("unsupported scalar fixture hydrates");
    let unproven = pane_fixture(b"tmux master\n", &[])
        .ok()
        .expect("unproven scalar fixture hydrates");

    assert!(
        PaneInfo::filter_fields()
            .pane_id
            .eq("%1")
            .matches(&available)
    );
    assert!(
        PaneInfo::filter_fields()
            .pane_path
            .eq("/tmp/pane")
            .matches(&available)
    );
    assert!(
        PaneInfo::filter_fields()
            .cursor_flag
            .eq(true)
            .matches(&available)
    );
    assert!(
        PaneInfo::filter_fields()
            .pane_dead_status
            .eq(7)
            .matches(&available)
    );
    assert!(
        PaneInfo::filter_fields()
            .pane_width
            .eq(80)
            .matches(&available)
    );
    assert!(
        PaneInfo::filter_fields()
            .history_bytes
            .eq(9)
            .matches(&available)
    );
    assert!(
        PaneInfo::filter_fields()
            .pane_left
            .eq(-3)
            .matches(&available)
    );
    assert!(
        PaneInfo::filter_fields()
            .pane_dead_time
            .eq(-2)
            .matches(&available)
    );
    assert!(
        PaneInfo::filter_fields()
            .pane_pb_state
            .eq(PaneProgressState::Paused)
            .matches(&available)
    );
    assert!(
        PaneInfo::filter_fields()
            .pane_pipe_pid
            .eq(42)
            .matches(&available)
    );

    for candidate in [&absent, &unsupported, &unproven] {
        assert!(
            !PaneInfo::filter_fields()
                .pane_pipe_pid
                .eq(42)
                .matches(candidate)
        );
        assert!(
            !PaneInfo::filter_fields()
                .pane_pipe_pid
                .is_in(&[42])
                .matches(candidate)
        );
        assert!(
            !PaneInfo::filter_fields()
                .pane_pipe_pid
                .not_in(&[])
                .matches(candidate)
        );
    }

    let absent_text = pane_fixture(b"tmux 3.7\n", &[("pane_mode", b"")])
        .ok()
        .expect("absent text fixture hydrates");
    assert!(
        !PaneInfo::filter_fields()
            .pane_mode
            .eq("copy")
            .matches(&absent_text)
    );
    assert!(
        !PaneInfo::filter_fields()
            .pane_mode
            .eq_ignore_case("copy")
            .matches(&absent_text)
    );
    assert!(
        !PaneInfo::filter_fields()
            .pane_mode
            .contains("op")
            .matches(&absent_text)
    );
    assert!(
        !PaneInfo::filter_fields()
            .pane_mode
            .contains_ignore_case("op")
            .matches(&absent_text)
    );
    assert!(
        !PaneInfo::filter_fields()
            .pane_mode
            .starts_with("co")
            .matches(&absent_text)
    );
    assert!(
        !PaneInfo::filter_fields()
            .pane_mode
            .starts_with_ignore_case("co")
            .matches(&absent_text)
    );
    assert!(
        !PaneInfo::filter_fields()
            .pane_mode
            .ends_with("py")
            .matches(&absent_text)
    );
    assert!(
        !PaneInfo::filter_fields()
            .pane_mode
            .ends_with_ignore_case("py")
            .matches(&absent_text)
    );
    assert!(
        !PaneInfo::filter_fields()
            .pane_mode
            .is_in(&["copy"])
            .matches(&absent_text)
    );
    assert!(
        !PaneInfo::filter_fields()
            .pane_mode
            .not_in(&[])
            .matches(&absent_text)
    );
    assert!(
        !PaneInfo::filter_fields()
            .pane_mode
            .regex("^copy$")
            .ok()
            .expect("regex is valid")
            .matches(&absent_text)
    );
    assert!(
        !PaneInfo::filter_fields()
            .pane_mode
            .regex_ignore_case("^copy$")
            .ok()
            .expect("regex is valid")
            .matches(&absent_text)
    );

    assert!(
        !PaneInfo::filter_fields()
            .bracket_paste_flag
            .not_in(&[])
            .matches(&unsupported)
    );
    assert!(
        !PaneInfo::filter_fields()
            .pane_pb_state
            .not_in(&[])
            .matches(&unsupported)
    );
}

#[test]
fn snapshot_catalog_strict_text_matching_and_debug_keep_bytes_private() {
    let invalid = [0xff, 0xfe];
    let pane = pane_fixture(b"tmux 3.7\n", &[("pane_path", &invalid)])
        .ok()
        .expect("non-UTF-8 text hydrates losslessly");
    // Stored flat, so hydration already proved it present: the assertion
    // is about the bytes surviving, not about which state it is in.
    assert_eq!(pane.pane_path().as_bytes(), invalid);
    assert!(
        !PaneInfo::filter_fields()
            .pane_path
            .eq("text")
            .matches(&pane)
    );

    let session = session_fixture(
        b"tmux 3.7\n",
        &[("session_name", SHORT_SENTINEL.as_bytes())],
    )
    .ok()
    .expect("SessionInfo sentinel hydrates");
    let window = window_fixture(b"tmux 3.7\n", &[("window_name", SHORT_SENTINEL.as_bytes())])
        .ok()
        .expect("WindowInfo sentinel hydrates");
    let pane = pane_fixture(b"tmux 3.7\n", &[("pane_title", SHORT_SENTINEL.as_bytes())])
        .ok()
        .expect("PaneInfo sentinel hydrates");
    let client = client_fixture(b"tmux 3.7\n", &[("client_name", SHORT_SENTINEL.as_bytes())])
        .ok()
        .expect("ClientInfo sentinel hydrates");
    let nested = TmuxText::from_text(SHORT_SENTINEL);

    for debug in [
        session.debug_text(),
        window.debug_text(),
        pane.debug_text(),
        client.debug_text(),
        nested.debug_text(),
    ] {
        assert!(!debug.contains(SHORT_SENTINEL));
        assert!(!debug.contains(LONG_SENTINEL));
        assert!(!debug.contains('\u{fffd}'));
    }
}

/// Two documents are one value when members stand in any order.
fn same_value(left: &Json, right: &Json) -> bool {
    match (left, right) {
        (Json::Object(left), Json::Object(right)) => {
            left.len() == right.len()
                && left.iter().all(|member| {
                    right
                        .iter()
                        .any(|other| member.name == other.name && same_value(&member.value, &other.value))
                })
        }
        (Json::Array(left), Json::Array(right)) => {
            left.len() == right.len()
                && left.iter().zip(right).all(|(left, right)| same_value(left, right))
        }
        _ => left.same(right),
    }
}

fn assert_serde_scalar<T: Filterable>(
    authored: FilterExpr<T>,
    wire: Json,
    wrong_family: Json,
    candidate: &T,
) {
    let encoded = authored
        .encode()
        .ok()
        .expect("authored predicate serializes");
    assert!(same_value(&encoded, &wire));
    let decoded = FilterExpr::<T>::decode(&wire)
        .ok()
        .expect("canonical predicate validates for generated family");
    assert!(decoded.matches(candidate));
    assert!(FilterExpr::<T>::decode(&wrong_family).is_err());
}

#[test]
fn snapshot_catalog_serde_dispatch_covers_every_generated_scalar_family() {
    let pane = pane_fixture(
        b"tmux 3.7\n",
        &[
            ("cursor_flag", b"1"),
            ("history_bytes", b"9"),
            ("pane_dead_status", b"7"),
            ("pane_dead_time", b"-2"),
            ("pane_left", b"-3"),
            ("pane_path", b"/tmp/pane"),
            ("pane_pb_state", b"paused"),
            ("pane_width", b"80"),
        ],
    )
    .ok()
    .expect("serde candidate hydrates");

    let envelope = |field: &str, value: Json| {
        json::object(vec![
            json::member("version", Json::Number(Number::Unsigned(1))),
            json::member("target", json::string("pane")),
            json::member(
                "expr",
                json::object(vec![
                    json::member("op", json::string("eq")),
                    json::member("field", json::string(field)),
                    json::member("value", value),
                ]),
            ),
        ])
    };
    assert_serde_scalar(
        PaneInfo::filter_fields().pane_path.eq("/tmp/pane"),
        envelope("pane_path", json::string("/tmp/pane")),
        envelope("pane_path", Json::Bool(true)),
        &pane,
    );
    assert_serde_scalar(
        PaneInfo::filter_fields().cursor_flag.eq(true),
        envelope("cursor_flag", Json::Bool(true)),
        envelope("cursor_flag", json::string("true")),
        &pane,
    );
    assert_serde_scalar(
        PaneInfo::filter_fields().pane_dead_status.eq(7),
        envelope("pane_dead_status", json::string("7")),
        envelope("pane_dead_status", Json::Bool(true)),
        &pane,
    );
    assert_serde_scalar(
        PaneInfo::filter_fields().pane_width.eq(80),
        envelope("pane_width", json::string("80")),
        envelope("pane_width", Json::Bool(true)),
        &pane,
    );
    assert_serde_scalar(
        PaneInfo::filter_fields().history_bytes.eq(9),
        envelope("history_bytes", json::string("9")),
        envelope("history_bytes", Json::Bool(true)),
        &pane,
    );
    assert_serde_scalar(
        PaneInfo::filter_fields().pane_left.eq(-3),
        envelope("pane_left", json::string("-3")),
        envelope("pane_left", Json::Bool(true)),
        &pane,
    );
    assert_serde_scalar(
        PaneInfo::filter_fields().pane_dead_time.eq(-2),
        envelope("pane_dead_time", json::string("-2")),
        envelope("pane_dead_time", Json::Bool(true)),
        &pane,
    );
    assert_serde_scalar(
        PaneInfo::filter_fields().pane_id.eq("%1"),
        envelope("pane_id", json::string("%1")),
        envelope("pane_id", Json::Bool(true)),
        &pane,
    );
    assert_serde_scalar(
        PaneInfo::filter_fields()
            .pane_pb_state
            .eq(PaneProgressState::Paused),
        envelope("pane_pb_state", json::string("paused")),
        envelope("pane_pb_state", Json::Bool(true)),
        &pane,
    );
}

fn projection_rows(plan: &FormatPlan, row_overrides: &[Vec<(&str, &[u8])>]) -> Vec<ParsedRow> {
    let mut stdout = Vec::new();
    for overrides in row_overrides {
        let (row, _) = framed_row(plan, overrides);
        stdout.extend_from_slice(&row);
    }
    plan.parse_rows(&stdout)
        .ok()
        .expect("projection fixtures use the production framing parser")
}

fn projection_server_identity(endpoint: &str) -> ServerIdentity {
    ServerIdentity::from_socket_path(endpoint.as_bytes().to_vec())
}

fn window_projection_fixture(
    raw_version: &[u8],
    endpoint: &str,
    overrides: &[(&str, &[u8])],
) -> WindowProjection {
    let plan = window_projection_plan(&version(raw_version))
        .ok()
        .expect("Window projection plan is valid");
    let (row, _) = parsed_row(&plan, overrides);
    hydrate_window_projection(&projection_server_identity(endpoint), &plan, &row)
        .ok()
        .expect("Window projection fixture hydrates")
}

fn pane_projection_fixture(
    raw_version: &[u8],
    endpoint: &str,
    overrides: &[(&str, &[u8])],
) -> PaneProjection {
    let plan = pane_projection_plan(&version(raw_version))
        .ok()
        .expect("Pane projection plan is valid");
    let (row, _) = parsed_row(&plan, overrides);
    hydrate_pane_projection(&projection_server_identity(endpoint), &plan, &row)
        .ok()
        .expect("Pane projection fixture hydrates")
}

fn window_projection_suffix() -> [FormatDescriptor; 20] {
    [
        FormatDescriptor::Catalog(CatalogField::SessionId),
        FormatDescriptor::Catalog(CatalogField::WindowIndex),
        FormatDescriptor::Catalog(CatalogField::WindowActive),
        FormatDescriptor::Catalog(CatalogField::WindowActivityFlag),
        FormatDescriptor::Catalog(CatalogField::WindowBellFlag),
        FormatDescriptor::Catalog(CatalogField::WindowEndFlag),
        FormatDescriptor::Catalog(CatalogField::WindowFlags),
        FormatDescriptor::Catalog(CatalogField::WindowLastFlag),
        FormatDescriptor::Catalog(CatalogField::WindowLinked),
        FormatDescriptor::Catalog(CatalogField::WindowMarkedFlag),
        FormatDescriptor::Catalog(CatalogField::WindowRawFlags),
        FormatDescriptor::Catalog(CatalogField::WindowSilenceFlag),
        FormatDescriptor::Catalog(CatalogField::WindowStackIndex),
        FormatDescriptor::Catalog(CatalogField::WindowStartFlag),
        FormatDescriptor::Catalog(CatalogField::WindowActiveClients),
        FormatDescriptor::Catalog(CatalogField::WindowActiveClientsList),
        FormatDescriptor::Catalog(CatalogField::WindowActiveSessions),
        FormatDescriptor::Catalog(CatalogField::WindowActiveSessionsList),
        FormatDescriptor::Catalog(CatalogField::WindowLinkedSessions),
        FormatDescriptor::Catalog(CatalogField::WindowLinkedSessionsList),
    ]
}

fn pane_projection_suffix() -> [FormatDescriptor; 3] {
    [FormatDescriptor::Catalog(CatalogField::SessionId), FormatDescriptor::Catalog(CatalogField::WindowId), FormatDescriptor::Catalog(CatalogField::WindowIndex)]
}

fn window_projection_requested() -> Vec<FormatDescriptor> {
    list_info_supplements(InfoPlacement::WindowInfo)
        .into_iter()
        .chain(window_projection_suffix())
        .collect()
}

fn pane_projection_requested() -> Vec<FormatDescriptor> {
    list_info_supplements(InfoPlacement::PaneInfo)
        .into_iter()
        .chain(pane_projection_suffix())
        .collect()
}

fn assert_descriptor_sequence(actual: &[FormatDescriptor], expected: &[FormatDescriptor]) {
    assert_eq!(actual.len(), expected.len());
    for (actual, expected) in actual.iter().zip(expected) {
        assert_eq!(actual.name(), expected.name());
        assert!(actual.same(expected));
    }
}

fn descriptor_template(descriptors: &[FormatDescriptor]) -> String {
    let mut template = String::new();
    for descriptor in descriptors {
        template.push_str(&format!("#{{q:{}}}%", descriptor.name()));
    }
    template
}

fn call_window_link_identity(link: &WindowLink) -> &WindowLinkIdentity {
    link.identity()
}

fn call_window_projection_window(projection: &WindowProjection) -> &WindowInfo {
    projection.window()
}

fn call_window_projection_link(projection: &WindowProjection) -> &WindowLink {
    projection.link()
}

fn call_pane_projection_pane(projection: &PaneProjection) -> &PaneInfo {
    projection.pane()
}

fn call_pane_projection_link_identity(projection: &PaneProjection) -> &WindowLinkIdentity {
    projection.link_identity()
}

#[test]
fn snapshot_projection_value_shapes_accessors_and_traits_are_exact() {
    let window = window_projection_fixture(
        b"tmux 3.7\n",
        "/private/projection-shape-endpoint",
        &[("session_id", b"$7"), ("window_index", b"-3")],
    );
    let pane = pane_projection_fixture(
        b"tmux 3.7\n",
        "/private/projection-shape-endpoint",
        &[
            ("session_id", b"$7"),
            ("window_id", b"@1"),
            ("window_index", b"-3"),
        ],
    );

    assert_snapshot_traits::<WindowLink>();
    assert_snapshot_traits::<WindowProjection>();
    assert_snapshot_traits::<PaneProjection>();

    let identity_accessor: for<'a> fn(&'a WindowLink) -> &'a WindowLinkIdentity =
        WindowLink::identity;
    let window_accessor: for<'a> fn(&'a WindowProjection) -> &'a WindowInfo =
        WindowProjection::window;
    let link_accessor: for<'a> fn(&'a WindowProjection) -> &'a WindowLink = WindowProjection::link;
    let pane_accessor: for<'a> fn(&'a PaneProjection) -> &'a PaneInfo = PaneProjection::pane;
    let pane_link_accessor: for<'a> fn(&'a PaneProjection) -> &'a WindowLinkIdentity =
        PaneProjection::link_identity;
    let window_plan: fn(&TmuxVersion) -> Result<FormatPlan, FormatCodecError> =
        window_projection_plan;
    let pane_plan: fn(&TmuxVersion) -> Result<FormatPlan, FormatCodecError> = pane_projection_plan;
    let hydrate_window: fn(
        &ServerIdentity,
        &FormatPlan,
        &ParsedRow,
    ) -> Result<WindowProjection, FormatCodecError> = hydrate_window_projection;
    let hydrate_windows: fn(
        &ServerIdentity,
        &FormatPlan,
        &[ParsedRow],
    ) -> Result<Vec<WindowProjection>, FormatCodecError> = hydrate_window_projections;
    let hydrate_pane: fn(
        &ServerIdentity,
        &FormatPlan,
        &ParsedRow,
    ) -> Result<PaneProjection, FormatCodecError> = hydrate_pane_projection;
    let hydrate_panes: fn(
        &ServerIdentity,
        &FormatPlan,
        &[ParsedRow],
    ) -> Result<Vec<PaneProjection>, FormatCodecError> = hydrate_pane_projections;
    let local_selector: for<'a> fn(
        &'a [WindowProjection],
    )
        -> Result<Option<&'a WindowProjection>, PointSelectionError> =
        select_local_window_projection;
    let holders: fn(&[WindowProjection], &ServerIdentity, &WindowId) -> Vec<SessionId> =
        holder_session_ids;

    let WindowProjection {
        window: window_info,
        link,
        window_active_clients,
        window_active_clients_list,
        window_active_sessions,
        window_active_sessions_list,
        window_linked_sessions,
        window_linked_sessions_list,
    } = &window;
    let _: &WindowInfo = window_info;
    let _: &u32 = window_active_clients;
    let _: &TmuxText = window_active_clients_list;
    let _: &u32 = window_active_sessions;
    let _: &TmuxText = window_active_sessions_list;
    let _: &u32 = window_linked_sessions;
    let _: &TmuxText = window_linked_sessions_list;
    let WindowLink {
        identity,
        window_active,
        window_activity_flag,
        window_bell_flag,
        window_end_flag,
        window_flags,
        window_last_flag,
        window_linked,
        window_marked_flag,
        window_raw_flags,
        window_silence_flag,
        window_stack_index,
        window_start_flag,
    } = link;
    let _: &WindowLinkIdentity = identity;
    for value in [
        window_active,
        window_activity_flag,
        window_bell_flag,
        window_end_flag,
        window_last_flag,
        window_linked,
        window_marked_flag,
        window_silence_flag,
        window_start_flag,
    ] {
        let _: &bool = value;
    }
    let _: &TmuxText = window_flags;
    let _: &TmuxText = window_raw_flags;
    let _: &u32 = window_stack_index;

    let PaneProjection {
        pane: pane_info,
        link_identity,
    } = &pane;
    let _: &PaneInfo = pane_info;
    let _: &WindowLinkIdentity = link_identity;
    assert!(std::ptr::eq(identity_accessor(link), identity));
    assert!(std::ptr::eq(window_accessor(&window), window_info));
    assert!(std::ptr::eq(link_accessor(&window), link));
    assert!(std::ptr::eq(pane_accessor(&pane), pane_info));
    assert!(std::ptr::eq(pane_link_accessor(&pane), link_identity));
    assert!(std::ptr::eq(call_window_link_identity(link), identity));
    assert!(std::ptr::eq(
        call_window_projection_window(&window),
        window_info,
    ));
    assert!(std::ptr::eq(call_window_projection_link(&window), link,));
    assert!(std::ptr::eq(call_pane_projection_pane(&pane), pane_info));
    assert!(std::ptr::eq(
        call_pane_projection_link_identity(&pane),
        link_identity,
    ));
    let _ = (
        window_plan,
        pane_plan,
        hydrate_window,
        hydrate_windows,
        hydrate_pane,
        hydrate_panes,
        local_selector,
        holders,
    );
}

#[test]
fn snapshot_projection_plans_have_exact_order_state_and_templates() {
    let cases = [
        (b"tmux 3.2a\n".as_slice(), 57, 15, 0),
        (b"tmux 3.3\n".as_slice(), 60, 12, 0),
        (b"tmux 3.6\n".as_slice(), 61, 11, 0),
        (b"tmux 3.7\n".as_slice(), 72, 0, 0),
        (b"tmux master\n".as_slice(), 57, 0, 15),
        (b"tmux next-3.8\n".as_slice(), 57, 0, 15),
    ];
    let expected_window: Vec<_> = list_info_descriptors(InfoPlacement::WindowInfo)
        .into_iter()
        .chain(window_projection_suffix())
        .collect();
    let expected_pane: Vec<_> = list_info_descriptors(InfoPlacement::PaneInfo)
        .into_iter()
        .chain(pane_projection_suffix())
        .collect();

    for (raw, pane_selected, unsupported, unproven) in cases {
        let version = version(raw);
        let window_plan = window_projection_plan(&version)
            .ok()
            .expect("Window projection plan is valid");
        assert_eq!(window_plan.profile(), ListProfile::Windows);
        assert_eq!(window_plan.purpose(), PlanPurpose::Projection);
        assert_eq!(window_plan.planned().len(), 31);
        assert_eq!(window_plan.selected().len(), 31);
        assert_descriptor_sequence(&window_plan.selected(), &expected_window);
        assert_eq!(
            window_plan.template(),
            descriptor_template(&expected_window)
        );
        for (planned, expected) in window_plan.planned().iter().zip(&expected_window) {
            assert!(planned.descriptor.same(expected));
            assert!(matches!(planned.state, PlanFieldState::Selected { .. }));
        }

        let pane_plan = pane_projection_plan(&version)
            .ok()
            .expect("Pane projection plan is valid");
        let intrinsic = FormatPlan::for_profile(ListProfile::Panes, &version);
        let expected_selected: Vec<_> = intrinsic
            .selected()
            .into_iter()
            .chain(pane_projection_suffix())
            .collect();
        assert_eq!(pane_plan.profile(), ListProfile::Panes);
        assert_eq!(pane_plan.purpose(), PlanPurpose::Projection);
        assert_eq!(pane_plan.planned().len(), 72);
        assert_eq!(pane_plan.selected().len(), pane_selected);
        assert_descriptor_sequence(&pane_plan.selected(), &expected_selected);
        assert_eq!(
            pane_plan.template(),
            descriptor_template(&expected_selected)
        );
        let prefix = &pane_plan.planned()[..list_info_descriptors(InfoPlacement::PaneInfo).len()];
        assert_eq!(prefix.len(), intrinsic.planned().len());
        for (planned, expected) in prefix.iter().zip(intrinsic.planned()) {
            assert!(planned.descriptor.same(&expected.descriptor));
            assert_eq!(planned.state, expected.state);
        }
        assert_descriptor_sequence(
            &pane_plan
                .planned()
                .iter()
                .map(|planned| planned.descriptor)
                .collect::<Vec<_>>(),
            &expected_pane,
        );
        assert_eq!(
            pane_plan
                .planned()
                .iter()
                .filter(|field| matches!(field.state, PlanFieldState::Unsupported))
                .count(),
            unsupported,
        );
        assert_eq!(
            pane_plan
                .planned()
                .iter()
                .filter(|field| matches!(field.state, PlanFieldState::Unproven))
                .count(),
            unproven,
        );
        for planned in &pane_plan.planned()[list_info_descriptors(InfoPlacement::PaneInfo).len()..] {
            assert!(matches!(planned.state, PlanFieldState::Selected { .. }));
        }
    }
}

#[test]
fn snapshot_projection_window_rows_preserve_repeated_links_in_order() {
    let plan = window_projection_plan(&version(b"tmux 3.7\n"))
        .ok()
        .expect("Window projection plan is valid");
    let rows = projection_rows(
        &plan,
        &[
            vec![
                ("session_id", b"$1"),
                ("window_index", b"1"),
                ("window_active", b"1"),
            ],
            vec![
                ("session_id", b"$1"),
                ("window_index", b"5"),
                ("window_active", b"0"),
            ],
        ],
    );
    let server_identity = projection_server_identity("/private/window-repeat-endpoint");
    let projections = hydrate_window_projections(&server_identity, &plan, &rows)
        .ok()
        .expect("two Window rows hydrate");

    assert_eq!(projections.len(), 2);
    assert!(projections[0].window() == projections[1].window());
    assert!(projections[0].link().identity() != projections[1].link().identity());
    assert_eq!(projections[0].link().identity().window_index(), 1);
    assert_eq!(projections[1].link().identity().window_index(), 5);
    assert_eq!(
        projections[0].link().identity().window_id(),
        projections[1].link().identity().window_id(),
    );
}

#[test]
fn snapshot_projection_pane_rows_preserve_each_winlink_edge_in_order() {
    let plan = pane_projection_plan(&version(b"tmux 3.7\n"))
        .ok()
        .expect("Pane projection plan is valid");
    let rows = projection_rows(
        &plan,
        &[
            vec![
                ("session_id", b"$1"),
                ("window_id", b"@7"),
                ("window_index", b"1"),
            ],
            vec![
                ("session_id", b"$1"),
                ("window_id", b"@7"),
                ("window_index", b"5"),
            ],
        ],
    );
    let server_identity = projection_server_identity("/private/pane-repeat-endpoint");
    let projections = hydrate_pane_projections(&server_identity, &plan, &rows)
        .ok()
        .expect("two Pane rows hydrate");

    assert_eq!(projections.len(), 2);
    assert!(projections[0].pane() == projections[1].pane());
    assert!(projections[0].link_identity() != projections[1].link_identity());
    assert_eq!(projections[0].link_identity().window_index(), 1);
    assert_eq!(projections[1].link_identity().window_index(), 5);
    assert!(projections[0].link_identity().server_identity() == &server_identity);
    assert!(projections[1].link_identity().server_identity() == &server_identity);
    assert_eq!(
        projections[0].link_identity().window_id(),
        projections[1].link_identity().window_id(),
    );
}

#[test]
fn snapshot_projection_duplicate_rows_retain_each_intrinsic_observation() {
    let window_plan = window_projection_plan(&version(b"tmux 3.7\n"))
        .ok()
        .expect("Window projection plan is valid");
    let window_rows = projection_rows(
        &window_plan,
        &[
            vec![
                ("session_id", b"$1"),
                ("window_id", b"@7"),
                ("window_index", b"1"),
                ("window_activity", b"11"),
            ],
            vec![
                ("session_id", b"$1"),
                ("window_id", b"@7"),
                ("window_index", b"5"),
                ("window_activity", b"22"),
            ],
        ],
    );
    let server_identity = projection_server_identity("/private/divergent-intrinsic-endpoint");
    let windows = hydrate_window_projections(&server_identity, &window_plan, &window_rows)
        .ok()
        .expect("divergent Window observations hydrate");
    assert_eq!(windows.len(), 2);
    assert_eq!(windows[0].window.window_id(), windows[1].window.window_id());
    assert_eq!(
        windows[0].link().identity().window_id(),
        *windows[0].window().window_id(),
    );
    assert_eq!(
        windows[1].link().identity().window_id(),
        *windows[1].window().window_id(),
    );
    assert_eq!(windows[0].link().identity().window_id().text(), "@7");
    assert_eq!(windows[1].link().identity().window_id().text(), "@7");
    assert_eq!(*windows[0].window.window_activity(), 11);
    assert_eq!(*windows[1].window.window_activity(), 22);
    assert!(windows[0].window() != windows[1].window());
    assert_eq!(windows[0].link.identity.window_index(), 1);
    assert_eq!(windows[1].link.identity.window_index(), 5);

    let pane_plan = pane_projection_plan(&version(b"tmux 3.7\n"))
        .ok()
        .expect("Pane projection plan is valid");
    let pane_rows = projection_rows(
        &pane_plan,
        &[
            vec![
                ("pane_id", b"%9"),
                ("session_id", b"$1"),
                ("window_id", b"@7"),
                ("window_index", b"1"),
                ("pane_width", b"80"),
            ],
            vec![
                ("pane_id", b"%9"),
                ("session_id", b"$1"),
                ("window_id", b"@7"),
                ("window_index", b"5"),
                ("pane_width", b"120"),
            ],
        ],
    );
    let panes = hydrate_pane_projections(&server_identity, &pane_plan, &pane_rows)
        .ok()
        .expect("divergent Pane observations hydrate");
    assert_eq!(panes.len(), 2);
    assert_eq!(panes[0].pane.pane_id(), panes[1].pane.pane_id());
    assert_eq!(*panes[0].pane.pane_width(), 80);
    assert_eq!(*panes[1].pane.pane_width(), 120);
    assert!(panes[0].pane() != panes[1].pane());
    assert_eq!(panes[0].link_identity.window_index(), 1);
    assert_eq!(panes[1].link_identity.window_index(), 5);
}

#[test]
fn snapshot_projection_enumeration_does_not_apply_local_point_selection() {
    let plan = window_projection_plan(&version(b"tmux 3.7\n"))
        .ok()
        .expect("Window projection plan is valid");
    let rows = projection_rows(
        &plan,
        &[
            vec![("session_id", b"$1"), ("window_index", b"5")],
            vec![
                ("session_id", b"$2"),
                ("window_index", b"1"),
                ("window_active", b"1"),
            ],
        ],
    );
    let projections = hydrate_window_projections(
        &projection_server_identity("/private/enumeration-endpoint"),
        &plan,
        &rows,
    )
    .ok()
    .expect("enumeration retains structurally valid mixed-Session rows");

    assert_eq!(projections.len(), 2);
    assert!(select_local_window_projection(&projections) == Err(PointSelectionError::MixedSession));
}

fn selection_projection(session_id: &str, window_index: i32, active: bool) -> WindowProjection {
    let rendered_index = window_index.to_string();
    window_projection_fixture(
        b"tmux 3.7\n",
        "/private/selection-endpoint",
        &[
            ("session_id", session_id.as_bytes()),
            ("window_index", rendered_index.as_bytes()),
            ("window_active", if active { b"1" } else { b"0" }),
        ],
    )
}

#[test]
fn snapshot_projection_local_selection_covers_empty_active_and_minimum_cases() {
    assert!(select_local_window_projection(&[]) == Ok(None));

    let only = vec![selection_projection("$1", 8, false)];
    assert_eq!(
        std::ptr::from_ref(
            select_local_window_projection(&only)
                .ok()
                .flatten()
                .expect("one candidate is selected"),
        ),
        std::ptr::from_ref(&only[0]),
    );

    let active_low = vec![
        selection_projection("$1", 2, true),
        selection_projection("$1", 8, false),
    ];
    assert_eq!(
        std::ptr::from_ref(
            select_local_window_projection(&active_low)
                .ok()
                .flatten()
                .expect("active candidate is selected"),
        ),
        std::ptr::from_ref(&active_low[0]),
    );

    let active_high = vec![
        selection_projection("$1", -4, false),
        selection_projection("$1", 9, true),
    ];
    assert_eq!(
        std::ptr::from_ref(
            select_local_window_projection(&active_high)
                .ok()
                .flatten()
                .expect("active candidate outranks the minimum index"),
        ),
        std::ptr::from_ref(&active_high[1]),
    );

    let two_active = vec![
        selection_projection("$1", 9, true),
        selection_projection("$1", -4, true),
    ];
    assert_eq!(
        std::ptr::from_ref(
            select_local_window_projection(&two_active)
                .ok()
                .flatten()
                .expect("first active candidate is stable"),
        ),
        std::ptr::from_ref(&two_active[0]),
    );

    let reversed_inactive = vec![
        selection_projection("$1", 7, false),
        selection_projection("$1", -3, false),
    ];
    assert_eq!(
        std::ptr::from_ref(
            select_local_window_projection(&reversed_inactive)
                .ok()
                .flatten()
                .expect("lowest signed index is selected"),
        ),
        std::ptr::from_ref(&reversed_inactive[1]),
    );

    let equal_minimum = vec![
        selection_projection("$1", -3, false),
        selection_projection("$1", -3, false),
        selection_projection("$1", 4, false),
    ];
    assert_eq!(
        std::ptr::from_ref(
            select_local_window_projection(&equal_minimum)
                .ok()
                .flatten()
                .expect("first equal minimum is stable"),
        ),
        std::ptr::from_ref(&equal_minimum[0]),
    );
}

#[test]
fn snapshot_projection_local_selection_rejects_mixed_sessions_before_active_choice() {
    let mixed = vec![
        selection_projection("$1", -20, false),
        selection_projection("$2", 20, true),
    ];

    assert!(select_local_window_projection(&mixed) == Err(PointSelectionError::MixedSession));
    assert_eq!(
        PointSelectionError::MixedSession.message(),
        "mixed Session candidates"
    );
    assert_progress_traits::<PointSelectionError>();
    let PointSelectionError::MixedSession = PointSelectionError::MixedSession;
}

#[test]
fn snapshot_projection_hydration_rejects_wrong_profile_and_purpose_before_decoding() {
    let server_identity = projection_server_identity("/private/wrong-plan-endpoint");
    let pane_plan = pane_projection_plan(&version(b"tmux 3.7\n"))
        .ok()
        .expect("Pane projection plan is valid");
    let (pane_row, _) = parsed_row(&pane_plan, &[]);
    let wrong_profile = error(hydrate_window_projection(
        &server_identity,
        &pane_plan,
        &pane_row,
    ));
    assert_eq!(wrong_profile.kind(), FormatCodecErrorKind::PlanRowMismatch);
    assert_eq!(wrong_profile.phase(), FormatCodecPhase::Decode);
    assert_eq!(wrong_profile.row(), Some(0));
    assert_eq!(wrong_profile.field(), None);
    assert_eq!(wrong_profile.field_name(), None);
    assert_eq!(wrong_profile.offset(), None);
    assert_eq!(wrong_profile.profile(), Some(ListProfile::Panes));
    assert_safe_diagnostic(&wrong_profile);

    let intrinsic = FormatPlan::for_profile(ListProfile::Windows, &version(b"tmux 3.7\n"));
    let (intrinsic_row, _) = parsed_row(&intrinsic, &[]);
    let wrong_purpose = error(hydrate_window_projection(
        &server_identity,
        &intrinsic,
        &intrinsic_row,
    ));
    assert_eq!(wrong_purpose.kind(), FormatCodecErrorKind::PlanRowMismatch);
    assert_eq!(wrong_purpose.phase(), FormatCodecPhase::Decode);
    assert_eq!(wrong_purpose.row(), Some(0));
    assert_eq!(wrong_purpose.field(), None);
    assert_eq!(wrong_purpose.field_name(), None);
    assert_eq!(wrong_purpose.offset(), None);
    assert_eq!(wrong_purpose.profile(), Some(ListProfile::Windows));
    assert_safe_diagnostic(&wrong_purpose);
}

fn assert_projection_guard_error(error: &FormatCodecError, profile: ListProfile) {
    assert_eq!(error.kind(), FormatCodecErrorKind::PlanRowMismatch);
    assert_eq!(error.phase(), FormatCodecPhase::Decode);
    assert_eq!(error.row(), Some(0));
    assert_eq!(error.field(), None);
    assert_eq!(error.field_name(), None);
    assert_eq!(error.expected(), None);
    assert_eq!(error.offset(), None);
    assert_eq!(error.profile(), Some(profile));
    assert_safe_diagnostic(error);
}

#[test]
fn snapshot_projection_pane_hydration_and_lists_guard_profile_and_purpose_first() {
    let server_identity = projection_server_identity("/private/pane-guard-endpoint");
    let wrong_profile = window_projection_plan(&version(b"tmux 3.7\n"))
        .ok()
        .expect("Window projection plan is valid");
    let (window_row, _) = parsed_row(&wrong_profile, &[]);
    let single_profile = error(hydrate_pane_projection(
        &server_identity,
        &wrong_profile,
        &window_row,
    ));
    let list_profile = error(hydrate_pane_projections(
        &server_identity,
        &wrong_profile,
        std::slice::from_ref(&window_row),
    ));
    assert_projection_guard_error(&single_profile, ListProfile::Windows);
    assert_projection_guard_error(&list_profile, ListProfile::Windows);

    let wrong_purpose = FormatPlan::for_profile(ListProfile::Panes, &version(b"tmux 3.7\n"));
    let (pane_row, _) = parsed_row(&wrong_purpose, &[]);
    let single_purpose = error(hydrate_pane_projection(
        &server_identity,
        &wrong_purpose,
        &pane_row,
    ));
    let list_purpose = error(hydrate_pane_projections(
        &server_identity,
        &wrong_purpose,
        std::slice::from_ref(&pane_row),
    ));
    assert_projection_guard_error(&single_purpose, ListProfile::Panes);
    assert_projection_guard_error(&list_purpose, ListProfile::Panes);
}

#[test]
fn snapshot_projection_hydration_rejects_reordered_underflow_and_trailing_plans() {
    let detected = version(b"tmux 3.7\n");
    let server_identity = projection_server_identity("/private/plan-shape-endpoint");

    let mut reordered_request = window_projection_requested();
    let suffix_start = list_info_supplements(InfoPlacement::WindowInfo).len();
    reordered_request.swap(suffix_start, suffix_start + 1);
    let reordered =
        FormatPlan::for_descriptors(ListProfile::Windows, &detected, &reordered_request)
            .ok()
            .expect("reordered trusted-static projection is structurally constructible");
    let (row, _) = parsed_row(&reordered, &[]);
    let reordered_error = error(hydrate_window_projection(
        &server_identity,
        &reordered,
        &row,
    ));
    assert_eq!(
        reordered_error.kind(),
        FormatCodecErrorKind::PlanRowMismatch
    );
    assert_eq!(reordered_error.phase(), FormatCodecPhase::Decode);
    assert_eq!(reordered_error.row(), Some(0));
    assert_eq!(reordered_error.field(), Some(list_info_descriptors(InfoPlacement::WindowInfo).len()));
    assert_eq!(reordered_error.field_name(), Some("session_id"));
    assert!(reordered_error.offset().is_some());
    assert_eq!(reordered_error.profile(), None);
    assert_safe_diagnostic(&reordered_error);

    let underflow =
        FormatPlan::for_descriptors(ListProfile::Windows, &detected, &list_info_supplements(InfoPlacement::WindowInfo))
            .ok()
            .expect("shared-prefix-only projection is constructible");
    let (row, _) = parsed_row(&underflow, &[]);
    let underflow_error = error(hydrate_window_projection(
        &server_identity,
        &underflow,
        &row,
    ));
    assert_eq!(
        underflow_error.kind(),
        FormatCodecErrorKind::PlanRowMismatch
    );
    assert_eq!(underflow_error.row(), Some(0));
    assert_eq!(underflow_error.field(), Some(list_info_descriptors(InfoPlacement::WindowInfo).len()));
    assert_eq!(underflow_error.field_name(), Some("session_id"));
    assert_eq!(underflow_error.offset(), None);
    assert_eq!(underflow_error.profile(), None);
    assert_safe_diagnostic(&underflow_error);

    let mut trailing_request = window_projection_requested();
    trailing_request.push(FormatDescriptor::Catalog(CatalogField::ClientModeFormat));
    let trailing = FormatPlan::for_descriptors(ListProfile::Windows, &detected, &trailing_request)
        .ok()
        .expect("projection with a trailing catalog field is constructible");
    let (row, _) = parsed_row(&trailing, &[]);
    let trailing_error = error(hydrate_window_projection(&server_identity, &trailing, &row));
    assert_eq!(trailing_error.kind(), FormatCodecErrorKind::PlanRowMismatch);
    assert_eq!(trailing_error.row(), Some(0));
    assert_eq!(trailing_error.field(), Some(31));
    assert_eq!(trailing_error.field_name(), Some("client_mode_format"));
    assert_eq!(trailing_error.offset(), None);
    assert_eq!(trailing_error.profile(), None);
    assert_safe_diagnostic(&trailing_error);
}

#[test]
fn snapshot_projection_typed_edge_errors_and_local_precedence_are_exact() {
    let detected = version(b"tmux 3.7\n");
    let server_identity = projection_server_identity("/private/typed-edge-endpoint");
    let exact = window_projection_plan(&detected)
        .ok()
        .expect("Window projection plan is valid");

    let (row, offsets) = parsed_row(&exact, &[("window_index", SHORT_SENTINEL.as_bytes())]);
    let invalid_index = error(hydrate_window_projection(&server_identity, &exact, &row));
    assert_invalid_value(
        &invalid_index,
        &exact,
        &offsets,
        "window_index",
        DecoderKind::I32,
    );

    let (row, offsets) = parsed_row(&exact, &[("session_id", b"")]);
    let empty_session = error(hydrate_window_projection(&server_identity, &exact, &row));
    let session_field = exact
        .selected()
        .iter()
        .position(|descriptor| descriptor.name() == "session_id")
        .expect("session edge is selected");
    assert_eq!(
        empty_session.kind(),
        FormatCodecErrorKind::RequiredFieldEmpty
    );
    assert_eq!(empty_session.phase(), FormatCodecPhase::Decode);
    assert_eq!(empty_session.row(), Some(0));
    assert_eq!(empty_session.field(), Some(session_field));
    assert_eq!(empty_session.field_name(), Some("session_id"));
    assert_eq!(empty_session.expected(), Some(DecoderKind::SessionId));
    assert_eq!(empty_session.offset(), offsets.get("session_id").copied());
    assert_eq!(empty_session.profile(), None);
    assert_safe_diagnostic(&empty_session);

    let mut reordered_request = window_projection_requested();
    let suffix_start = list_info_supplements(InfoPlacement::WindowInfo).len();
    reordered_request.swap(suffix_start, suffix_start + 1);
    let reordered =
        FormatPlan::for_descriptors(ListProfile::Windows, &detected, &reordered_request)
            .ok()
            .expect("reordered projection is constructible");
    let (row, offsets) = parsed_row(&reordered, &[("window_activity", b"01")]);
    let first_error = error(hydrate_window_projection(
        &server_identity,
        &reordered,
        &row,
    ));
    assert_invalid_value(
        &first_error,
        &reordered,
        &offsets,
        "window_activity",
        DecoderKind::Timestamp,
    );
}

#[test]
fn snapshot_projection_pane_edge_omission_is_a_local_row_mismatch() {
    let detected = version(b"tmux 3.7\n");
    let mut requested = pane_projection_requested();
    let popped = requested.pop().expect("Window index suffix exists");
    assert!(popped.same(&FormatDescriptor::Catalog(CatalogField::WindowIndex)));
    let omitted = FormatPlan::for_descriptors(ListProfile::Panes, &detected, &requested)
        .ok()
        .expect("Pane plan without the final edge remains constructible");
    let (row, _) = parsed_row(&omitted, &[]);
    let error = error(hydrate_pane_projection(
        &projection_server_identity("/private/pane-omission-endpoint"),
        &omitted,
        &row,
    ));

    assert_eq!(error.kind(), FormatCodecErrorKind::PlanRowMismatch);
    assert_eq!(error.phase(), FormatCodecPhase::Decode);
    assert_eq!(error.row(), Some(0));
    assert_eq!(error.field(), Some(list_info_descriptors(InfoPlacement::PaneInfo).len() + 2));
    assert_eq!(error.field_name(), Some("window_index"));
    assert_eq!(error.offset(), None);
    assert_eq!(error.profile(), None);
    assert_safe_diagnostic(&error);
}

#[test]
fn snapshot_projection_pane_trailing_descriptor_requires_finish() {
    let detected = version(b"tmux 3.7\n");
    let mut requested = pane_projection_requested();
    requested.push(FormatDescriptor::Catalog(CatalogField::ClientModeFormat));
    let trailing = FormatPlan::for_descriptors(ListProfile::Panes, &detected, &requested)
        .ok()
        .expect("Pane projection with one trailing field is constructible");
    let (row, _) = parsed_row(&trailing, &[]);
    let error = error(hydrate_pane_projection(
        &projection_server_identity("/private/pane-finish-endpoint"),
        &trailing,
        &row,
    ));

    assert_eq!(trailing.planned().len(), 73);
    assert_eq!(trailing.selected().len(), 73);
    assert_eq!(error.kind(), FormatCodecErrorKind::PlanRowMismatch);
    assert_eq!(error.phase(), FormatCodecPhase::Decode);
    assert_eq!(error.row(), Some(0));
    assert_eq!(error.field(), Some(72));
    assert_eq!(error.field_name(), Some("client_mode_format"));
    assert_eq!(error.expected(), None);
    assert_eq!(error.offset(), None);
    assert_eq!(error.profile(), None);
    assert_safe_diagnostic(&error);
}

#[test]
fn snapshot_projection_list_hydration_returns_no_partial_value_on_later_error() {
    let server_identity = projection_server_identity("/private/list-error-endpoint");
    let window_plan = window_projection_plan(&version(b"tmux 3.7\n"))
        .ok()
        .expect("Window projection plan is valid");
    let window_rows = projection_rows(
        &window_plan,
        &[
            vec![("window_index", b"1")],
            vec![("window_index", SHORT_SENTINEL.as_bytes())],
        ],
    );
    let window_error = error(hydrate_window_projections(
        &server_identity,
        &window_plan,
        &window_rows,
    ));
    assert_eq!(window_error.kind(), FormatCodecErrorKind::InvalidValue);
    assert_eq!(window_error.row(), Some(1));
    assert_eq!(window_error.field_name(), Some("window_index"));
    assert_safe_diagnostic(&window_error);

    let pane_plan = pane_projection_plan(&version(b"tmux 3.7\n"))
        .ok()
        .expect("Pane projection plan is valid");
    let pane_rows = projection_rows(
        &pane_plan,
        &[
            vec![("window_index", b"1")],
            vec![("window_index", SHORT_SENTINEL.as_bytes())],
        ],
    );
    let pane_error = error(hydrate_pane_projections(
        &server_identity,
        &pane_plan,
        &pane_rows,
    ));
    assert_eq!(pane_error.kind(), FormatCodecErrorKind::InvalidValue);
    assert_eq!(pane_error.row(), Some(1));
    assert_eq!(pane_error.field_name(), Some("window_index"));
    assert_safe_diagnostic(&pane_error);
}

#[test]
fn snapshot_projection_stdout_composition_signatures_are_exact() {
    let windows: fn(
        &ServerIdentity,
        &FormatPlan,
        &[u8],
    ) -> Result<Vec<WindowProjection>, FormatCodecError> = hydrate_window_projections_from_stdout;
    let panes: fn(
        &ServerIdentity,
        &FormatPlan,
        &[u8],
    ) -> Result<Vec<PaneProjection>, FormatCodecError> = hydrate_pane_projections_from_stdout;

    let _ = (windows, panes);
}

#[test]
fn snapshot_projection_stdout_composition_preserves_rows_and_empty_listings() {
    let server_identity = projection_server_identity("/private/stdout-composition-endpoint");
    let detected = version(b"tmux 3.7\n");
    let window_plan = window_projection_plan(&detected)
        .ok()
        .expect("Window projection plan is valid");
    let mut window_stdout = Vec::new();
    for overrides in [
        [
            ("window_id", b"@7".as_slice()),
            ("session_id", b"$3".as_slice()),
            ("window_index", b"-2".as_slice()),
        ],
        [
            ("window_id", b"@7".as_slice()),
            ("session_id", b"$3".as_slice()),
            ("window_index", b"5".as_slice()),
        ],
    ] {
        window_stdout.extend_from_slice(&framed_row(&window_plan, &overrides).0);
    }
    let windows =
        hydrate_window_projections_from_stdout(&server_identity, &window_plan, &window_stdout)
            .ok()
            .expect("raw Window rows parse and hydrate");
    assert_eq!(windows.len(), 2);
    assert_eq!(
        windows
            .iter()
            .map(|projection| projection.link.identity.window_index())
            .collect::<Vec<_>>(),
        [-2, 5],
    );
    for projection in &windows {
        assert!(projection.link.identity.server_identity() == &server_identity);
        assert_eq!(projection.link.identity.session_id().text(), "$3");
        assert_eq!(projection.link.identity.window_id().text(), "@7");
        assert_eq!(projection.window.window_id().text(), "@7");
    }
    assert!(
        hydrate_window_projections_from_stdout(&server_identity, &window_plan, b"")
            .ok()
            .expect("empty Window stdout is an empty listing")
            .is_empty()
    );

    let pane_plan = pane_projection_plan(&detected)
        .ok()
        .expect("Pane projection plan is valid");
    let mut pane_stdout = Vec::new();
    for overrides in [
        [
            ("pane_id", b"%9".as_slice()),
            ("session_id", b"$3".as_slice()),
            ("window_id", b"@7".as_slice()),
            ("window_index", b"-2".as_slice()),
        ],
        [
            ("pane_id", b"%9".as_slice()),
            ("session_id", b"$3".as_slice()),
            ("window_id", b"@7".as_slice()),
            ("window_index", b"5".as_slice()),
        ],
    ] {
        pane_stdout.extend_from_slice(&framed_row(&pane_plan, &overrides).0);
    }
    let panes = hydrate_pane_projections_from_stdout(&server_identity, &pane_plan, &pane_stdout)
        .ok()
        .expect("raw Pane rows parse and hydrate");
    assert_eq!(panes.len(), 2);
    assert_eq!(
        panes
            .iter()
            .map(|projection| projection.link_identity.window_index())
            .collect::<Vec<_>>(),
        [-2, 5],
    );
    for projection in &panes {
        assert!(projection.link_identity.server_identity() == &server_identity);
        assert_eq!(projection.link_identity.session_id().text(), "$3");
        assert_eq!(projection.link_identity.window_id().text(), "@7");
        assert_eq!(projection.pane.pane_id().text(), "%9");
    }
    assert!(
        hydrate_pane_projections_from_stdout(&server_identity, &pane_plan, b"")
            .ok()
            .expect("empty Pane stdout is an empty listing")
            .is_empty()
    );
}

fn malformed_stdout_sentinel() -> Vec<u8> {
    let mut stdout = Vec::new();
    stdout.extend_from_slice(SHORT_SENTINEL.as_bytes());
    stdout.push(b'_');
    stdout.extend_from_slice(LONG_SENTINEL.as_bytes());
    stdout.push(b'_');
    stdout.extend_from_slice(&CONTROL_SENTINEL);
    stdout.push(b'_');
    stdout.extend_from_slice(&INVALID_UTF8_SENTINEL);
    stdout
}

fn assert_missing_field_terminator(
    error: &FormatCodecError,
    row: usize,
    field_name: &'static str,
    offset: usize,
) {
    assert_eq!(error.kind(), FormatCodecErrorKind::MissingFieldTerminator);
    assert_eq!(error.phase(), FormatCodecPhase::Field);
    assert_eq!(error.row(), Some(row));
    assert_eq!(error.field(), Some(0));
    assert_eq!(error.field_name(), Some(field_name));
    assert_eq!(error.expected(), None);
    assert_eq!(error.offset(), Some(offset));
    assert_eq!(error.profile(), None);
    assert_safe_diagnostic(error);
}

#[test]
fn snapshot_projection_stdout_composition_guards_before_parsing_malformed_payloads() {
    let server_identity = projection_server_identity("/private/stdout-guard-endpoint");
    let detected = version(b"tmux 3.7\n");
    let malformed = malformed_stdout_sentinel();

    let pane_projection = pane_projection_plan(&detected)
        .ok()
        .expect("Pane projection plan is valid");
    let wrong_window_profile = error(hydrate_window_projections_from_stdout(
        &server_identity,
        &pane_projection,
        &malformed,
    ));
    assert_projection_guard_error(&wrong_window_profile, ListProfile::Panes);

    let intrinsic_windows = FormatPlan::for_profile(ListProfile::Windows, &detected);
    let wrong_window_purpose = error(hydrate_window_projections_from_stdout(
        &server_identity,
        &intrinsic_windows,
        &malformed,
    ));
    assert_projection_guard_error(&wrong_window_purpose, ListProfile::Windows);

    let window_projection = window_projection_plan(&detected)
        .ok()
        .expect("Window projection plan is valid");
    let wrong_pane_profile = error(hydrate_pane_projections_from_stdout(
        &server_identity,
        &window_projection,
        &malformed,
    ));
    assert_projection_guard_error(&wrong_pane_profile, ListProfile::Windows);

    let intrinsic_panes = FormatPlan::for_profile(ListProfile::Panes, &detected);
    let wrong_pane_purpose = error(hydrate_pane_projections_from_stdout(
        &server_identity,
        &intrinsic_panes,
        &malformed,
    ));
    assert_projection_guard_error(&wrong_pane_purpose, ListProfile::Panes);
}

#[test]
fn snapshot_projection_stdout_composition_reports_exact_framing_errors() {
    let server_identity = projection_server_identity("/private/stdout-framing-endpoint");
    let detected = version(b"tmux 3.7\n");
    let malformed = malformed_stdout_sentinel();
    let window_plan = window_projection_plan(&detected)
        .ok()
        .expect("Window projection plan is valid");
    let window_error = error(hydrate_window_projections_from_stdout(
        &server_identity,
        &window_plan,
        &malformed,
    ));
    assert_missing_field_terminator(&window_error, 0, "window_id", malformed.len());

    let pane_plan = pane_projection_plan(&detected)
        .ok()
        .expect("Pane projection plan is valid");
    let pane_error = error(hydrate_pane_projections_from_stdout(
        &server_identity,
        &pane_plan,
        &malformed,
    ));
    assert_missing_field_terminator(&pane_error, 0, "pane_id", malformed.len());
}

#[test]
fn snapshot_projection_stdout_composition_returns_only_error_for_later_bad_rows() {
    let server_identity = projection_server_identity("/private/stdout-later-row-endpoint");
    let detected = version(b"tmux 3.7\n");
    let malformed = malformed_stdout_sentinel();
    let window_plan = window_projection_plan(&detected)
        .ok()
        .expect("Window projection plan is valid");
    let mut window_stdout = framed_row(&window_plan, &[("window_index", b"1")]).0;
    let later_start = window_stdout.len();
    window_stdout.extend_from_slice(&malformed);
    let window_error = error(hydrate_window_projections_from_stdout(
        &server_identity,
        &window_plan,
        &window_stdout,
    ));
    assert_missing_field_terminator(&window_error, 1, "window_id", later_start + malformed.len());

    let pane_plan = pane_projection_plan(&detected)
        .ok()
        .expect("Pane projection plan is valid");
    let mut pane_stdout = framed_row(&pane_plan, &[("window_index", b"1")]).0;
    pane_stdout.extend_from_slice(
        &framed_row(&pane_plan, &[("window_index", SHORT_SENTINEL.as_bytes())]).0,
    );
    let pane_error = error(hydrate_pane_projections_from_stdout(
        &server_identity,
        &pane_plan,
        &pane_stdout,
    ));
    assert_eq!(pane_error.kind(), FormatCodecErrorKind::InvalidValue);
    assert_eq!(pane_error.phase(), FormatCodecPhase::Decode);
    assert_eq!(pane_error.row(), Some(1));
    assert_eq!(pane_error.field_name(), Some("window_index"));
    assert_eq!(pane_error.expected(), Some(DecoderKind::I32));
    assert_eq!(pane_error.profile(), None);
    assert_safe_diagnostic(&pane_error);
}

#[test]
fn snapshot_projection_pane_unavailability_is_preserved_while_edges_are_selected() {
    for raw in [
        b"tmux 3.2a\n".as_slice(),
        b"tmux master\n".as_slice(),
        b"tmux next-3.8\n".as_slice(),
    ] {
        let plan = pane_projection_plan(&version(raw))
            .ok()
            .expect("Pane projection plan is valid");
        let (row, _) = parsed_row(
            &plan,
            &[
                ("session_id", b"$9"),
                ("window_id", b"@7"),
                ("window_index", b"-4"),
            ],
        );
        let projection = hydrate_pane_projection(
            &projection_server_identity("/private/pane-availability-endpoint"),
            &plan,
            &row,
        )
        .ok()
        .expect("Pane projection hydrates across availability states");
        let intrinsic = pane_fixture(raw, &[])
            .ok()
            .expect("matching intrinsic PaneInfo hydrates");

        assert!(projection.pane() == &intrinsic);
        assert_eq!(projection.link_identity().session_id().text(), "$9");
        assert_eq!(projection.link_identity().window_id().text(), "@7");
        assert_eq!(projection.link_identity().window_index(), -4);
        for edge in &plan.planned()[list_info_descriptors(InfoPlacement::PaneInfo).len()..] {
            assert!(matches!(edge.state, PlanFieldState::Selected { .. }));
        }
    }
}

#[test]
fn snapshot_projection_raw_link_aggregates_remain_typed_opaque_observations() {
    let plan = window_projection_plan(&version(b"tmux 3.7\n"))
        .ok()
        .expect("Window projection plan is valid");
    let rows = projection_rows(
        &plan,
        &[
            vec![
                ("session_id", b"$1"),
                ("window_index", b"1"),
                ("window_linked", b"0"),
                ("window_linked_sessions", b"2"),
                ("window_linked_sessions_list", b"dup,dup"),
                ("window_flags", b""),
                ("window_raw_flags", b""),
            ],
            vec![
                ("session_id", b"$1"),
                ("window_index", b"5"),
                ("window_linked", b"1"),
                ("window_linked_sessions", b"1"),
                ("window_linked_sessions_list", b"dup,dup"),
            ],
        ],
    );
    let projections = hydrate_window_projections(
        &projection_server_identity("/private/raw-aggregate-endpoint"),
        &plan,
        &rows,
    )
    .ok()
    .expect("raw aggregate fixtures hydrate");

    assert!(!projections[0].link.window_linked);
    assert_eq!(projections[0].window_linked_sessions, 2);
    assert_eq!(
        projections[0].window_linked_sessions_list.as_bytes(),
        b"dup,dup",
    );
    assert!(projections[0].link.window_flags.as_bytes().is_empty());
    assert!(projections[0].link.window_raw_flags.as_bytes().is_empty());
    assert!(projections[1].link.window_linked);
    assert_eq!(projections[1].window_linked_sessions, 1);
    assert_eq!(
        projections[1].window_linked_sessions_list.as_bytes(),
        b"dup,dup",
    );
}

#[test]
fn snapshot_projection_window_suffix_fields_map_to_their_exact_slots() {
    let bool_fields = [
        "window_active",
        "window_activity_flag",
        "window_bell_flag",
        "window_end_flag",
        "window_last_flag",
        "window_linked",
        "window_marked_flag",
        "window_silence_flag",
        "window_start_flag",
    ];
    for (expected_index, field_name) in bool_fields.iter().copied().enumerate() {
        let projection = window_projection_fixture(
            b"tmux 3.7\n",
            "/private/exact-bool-slot-endpoint",
            &[(field_name, b"1")],
        );
        let actual = [
            projection.link.window_active,
            projection.link.window_activity_flag,
            projection.link.window_bell_flag,
            projection.link.window_end_flag,
            projection.link.window_last_flag,
            projection.link.window_linked,
            projection.link.window_marked_flag,
            projection.link.window_silence_flag,
            projection.link.window_start_flag,
        ];
        for (actual_index, value) in actual.into_iter().enumerate() {
            assert_eq!(
                value,
                actual_index == expected_index,
                "{field_name} must hydrate only its exact bool member",
            );
        }
    }

    let projection = window_projection_fixture(
        b"tmux 3.7\n",
        "/private/exact-scalar-slot-endpoint",
        &[
            ("window_flags", b"flags-distinct"),
            ("window_raw_flags", b"raw-flags-distinct"),
            ("window_stack_index", b"101"),
            ("window_active_clients", b"202"),
            ("window_active_clients_list", b"clients-distinct"),
            ("window_active_sessions", b"303"),
            ("window_active_sessions_list", b"active-sessions-distinct"),
            ("window_linked_sessions", b"404"),
            ("window_linked_sessions_list", b"linked-sessions-distinct"),
        ],
    );
    assert_eq!(projection.link.window_flags.as_bytes(), b"flags-distinct");
    assert_eq!(
        projection.link.window_raw_flags.as_bytes(),
        b"raw-flags-distinct",
    );
    assert_eq!(projection.link.window_stack_index, 101);
    assert_eq!(projection.window_active_clients, 202);
    assert_eq!(
        projection.window_active_clients_list.as_bytes(),
        b"clients-distinct",
    );
    assert_eq!(projection.window_active_sessions, 303);
    assert_eq!(
        projection.window_active_sessions_list.as_bytes(),
        b"active-sessions-distinct",
    );
    assert_eq!(projection.window_linked_sessions, 404);
    assert_eq!(
        projection.window_linked_sessions_list.as_bytes(),
        b"linked-sessions-distinct",
    );
}

#[test]
fn snapshot_projection_holder_sessions_use_only_structural_link_identity() {
    let projections = vec![
        window_projection_fixture(
            b"tmux 3.7\n",
            "/private/holder-endpoint-a",
            &[
                ("session_id", b"$2"),
                ("window_id", b"@1"),
                ("window_index", b"5"),
                ("window_linked_sessions", b"0"),
                ("window_linked_sessions_list", b"contradictory-a"),
            ],
        ),
        window_projection_fixture(
            b"tmux 3.7\n",
            "/private/holder-endpoint-a",
            &[
                ("session_id", b"$1"),
                ("window_id", b"@1"),
                ("window_index", b"1"),
                ("window_linked_sessions", b"99"),
                ("window_linked_sessions_list", b"contradictory-b,c,d"),
            ],
        ),
        window_projection_fixture(
            b"tmux 3.7\n",
            "/private/holder-endpoint-a",
            &[
                ("session_id", b"$2"),
                ("window_id", b"@1"),
                ("window_index", b"8"),
                ("window_linked_sessions", b"1"),
                ("window_linked_sessions_list", b"not-a-relation"),
            ],
        ),
        window_projection_fixture(
            b"tmux 3.7\n",
            "/private/holder-endpoint-a",
            &[
                ("session_id", b"$3"),
                ("window_id", b"@2"),
                ("window_index", b"3"),
            ],
        ),
        window_projection_fixture(
            b"tmux 3.7\n",
            "/private/holder-endpoint-b",
            &[
                ("session_id", b"$4"),
                ("window_id", b"@1"),
                ("window_index", b"4"),
            ],
        ),
    ];
    let endpoint = projection_server_identity("/private/holder-endpoint-a");
    let window_id = WindowId::parse(b"@1").expect("fixture Window ID is valid");
    let holders = holder_session_ids(&projections, &endpoint, &window_id);

    assert_eq!(
        holders.iter().map(SessionId::text).collect::<Vec<_>>(),
        ["$2", "$1"],
    );
}

#[test]
fn snapshot_projection_nested_debug_redacts_endpoint_and_all_text_payloads() {
    let text = LONG_SENTINEL.as_bytes();
    let numeric_text = format!("{text:?}");
    let window = window_projection_fixture(
        b"tmux 3.7\n",
        "/private/nested-debug-endpoint-sentinel/socket",
        &[
            ("window_layout", text),
            ("window_name", text),
            ("window_visible_layout", text),
            ("window_flags", text),
            ("window_raw_flags", text),
            ("window_active_clients_list", text),
            ("window_active_sessions_list", text),
            ("window_linked_sessions_list", text),
        ],
    );
    let pane = pane_projection_fixture(
        b"tmux 3.7\n",
        "/private/nested-debug-endpoint-sentinel/socket",
        &[
            ("cursor_character", text),
            ("pane_bg", text),
            ("pane_current_command", text),
            ("pane_current_path", text),
            ("pane_dead_signal", text),
            ("pane_fg", text),
            ("pane_flags", text),
            ("pane_mode", text),
            ("pane_path", text),
            ("pane_search_string", text),
            ("pane_start_command", text),
            ("pane_start_path", text),
            ("pane_tabs", text),
            ("pane_title", text),
            ("pane_tty", text),
        ],
    );
    let debug = format!("{}\n{}", window.debug_text(), pane.debug_text());

    assert!(!debug.contains(LONG_SENTINEL));
    assert!(!debug.contains(&numeric_text));
    assert!(!debug.contains("nested-debug-endpoint-sentinel"));
    assert!(!debug.contains("/private"));
}

#[test]
fn snapshot_projection_client_attachment_descriptors_remain_catalog_only() {
    let descriptors = list_info_descriptors(InfoPlacement::ClientInfo);
    assert!(!descriptors.iter().any(|descriptor| {
        descriptor.same(&FormatDescriptor::Catalog(CatalogField::ClientSession))
    }));
    assert!(!descriptors.iter().any(|descriptor| {
        descriptor.same(&FormatDescriptor::Catalog(CatalogField::ClientLastSession))
    }));
    assert_eq!(ClientInfo::filter_target(), "client");
}
