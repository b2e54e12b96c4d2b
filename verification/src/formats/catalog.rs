//! The catalog of format variables that listings read.

use vstd::prelude::*;

verus! {

/// How the bytes of a field are decoded.
#[derive(Clone, Copy, Debug, PartialEq, Eq, Structural)]
pub enum DecoderKind {
    Ascii,
    Text,
    Bool,
    U8,
    U32,
    U64,
    I32,
    Timestamp,
    SessionId,
    WindowId,
    PaneId,
    PaneProgress,
    PaneProgressState,
}

/// What an empty field means.
#[derive(Clone, Copy, Debug, PartialEq, Eq, Structural)]
pub enum EmptyPolicy {
    /// A field that is never empty.
    Required,
    /// A field that tmux leaves empty where it has nothing to report.
    Absent,
    /// A field whose empty value is a value.
    Available,
}

/// The release that first reports a field.
#[derive(Clone, Copy, Debug, PartialEq, Eq, Structural)]
pub enum ReleaseFloor {
    V3_2a,
    V3_3,
    V3_6,
    V3_7,
}

/// The object that a field describes.
#[derive(Clone, Copy, Debug, PartialEq, Eq, Structural)]
pub enum FieldOwner {
    Session,
    Window,
    Pane,
    Client,
    /// No single object.
    Shared,
}

/// The object that a snapshot describes.
#[derive(Clone, Copy, Debug, PartialEq, Eq, Structural)]
pub enum InfoPlacement {
    SessionInfo,
    WindowInfo,
    PaneInfo,
    ClientInfo,
}

/// A format variable.
#[derive(Clone, Copy, Debug, PartialEq, Eq, Structural)]
pub enum CatalogField {
    SessionId,
    SessionActivity,
    SessionAttached,
    SessionCreated,
    SessionLastAttached,
    SessionManyAttached,
    SessionName,
    SessionPath,
    SessionWindows,
    WindowId,
    WindowActivity,
    WindowCellHeight,
    WindowCellWidth,
    WindowHeight,
    WindowLayout,
    WindowName,
    WindowPanes,
    WindowVisibleLayout,
    WindowWidth,
    WindowZoomedFlag,
    WindowIndex,
    WindowActive,
    WindowActivityFlag,
    WindowBellFlag,
    WindowEndFlag,
    WindowFlags,
    WindowLastFlag,
    WindowLinked,
    WindowMarkedFlag,
    WindowRawFlags,
    WindowSilenceFlag,
    WindowStackIndex,
    WindowStartFlag,
    WindowActiveClients,
    WindowActiveClientsList,
    WindowActiveSessions,
    WindowActiveSessionsList,
    WindowLinkedSessions,
    WindowLinkedSessionsList,
    PaneId,
    AlternateSavedX,
    AlternateSavedY,
    BracketPasteFlag,
    CursorCharacter,
    CursorFlag,
    CursorX,
    CursorY,
    HistoryBytes,
    HistoryLimit,
    HistorySize,
    InsertFlag,
    KeypadCursorFlag,
    KeypadFlag,
    MouseAllFlag,
    MouseAnyFlag,
    MouseButtonFlag,
    MouseSgrFlag,
    MouseStandardFlag,
    OriginFlag,
    PaneActive,
    PaneAtBottom,
    PaneAtLeft,
    PaneAtRight,
    PaneAtTop,
    PaneBg,
    PaneBottom,
    PaneCurrentCommand,
    PaneCurrentPath,
    PaneDead,
    PaneDeadSignal,
    PaneDeadStatus,
    PaneDeadTime,
    PaneFg,
    PaneFlags,
    PaneFloatingFlag,
    PaneHeight,
    PaneInMode,
    PaneIndex,
    PaneInputOff,
    PaneLast,
    PaneLeft,
    PaneMarked,
    PaneMode,
    PanePath,
    PanePbProgress,
    PanePbState,
    PanePid,
    PanePipe,
    PanePipePid,
    PaneRight,
    PaneSearchString,
    PaneStartCommand,
    PaneStartPath,
    PaneSynchronized,
    PaneTabs,
    PaneTitle,
    PaneTop,
    PaneTty,
    PaneUnseenChanges,
    PaneWidth,
    PaneX,
    PaneY,
    PaneZ,
    PaneZoomedFlag,
    ScrollRegionLower,
    ScrollRegionUpper,
    SynchronizedOutputFlag,
    WrapFlag,
    ClientName,
    ClientActivity,
    ClientCellHeight,
    ClientCellWidth,
    ClientControlMode,
    ClientCreated,
    ClientDiscarded,
    ClientFlags,
    ClientHeight,
    ClientKeyTable,
    ClientPid,
    ClientPrefix,
    ClientReadonly,
    ClientTermfeatures,
    ClientTermname,
    ClientTermtype,
    ClientTty,
    ClientUid,
    ClientUser,
    ClientUtf8,
    ClientWidth,
    ClientWritten,
    SessionGroupList,
    ClientSession,
    ClientLastSession,
    ClientModeFormat,
}

impl CatalogField {
    /// The name of the variable, in contracts.
    #[verifier::opaque]
    pub open spec fn spelling(self) -> Seq<char> {
        match self {
            CatalogField::SessionId => "session_id"@,
            CatalogField::SessionActivity => "session_activity"@,
            CatalogField::SessionAttached => "session_attached"@,
            CatalogField::SessionCreated => "session_created"@,
            CatalogField::SessionLastAttached => "session_last_attached"@,
            CatalogField::SessionManyAttached => "session_many_attached"@,
            CatalogField::SessionName => "session_name"@,
            CatalogField::SessionPath => "session_path"@,
            CatalogField::SessionWindows => "session_windows"@,
            CatalogField::WindowId => "window_id"@,
            CatalogField::WindowActivity => "window_activity"@,
            CatalogField::WindowCellHeight => "window_cell_height"@,
            CatalogField::WindowCellWidth => "window_cell_width"@,
            CatalogField::WindowHeight => "window_height"@,
            CatalogField::WindowLayout => "window_layout"@,
            CatalogField::WindowName => "window_name"@,
            CatalogField::WindowPanes => "window_panes"@,
            CatalogField::WindowVisibleLayout => "window_visible_layout"@,
            CatalogField::WindowWidth => "window_width"@,
            CatalogField::WindowZoomedFlag => "window_zoomed_flag"@,
            CatalogField::WindowIndex => "window_index"@,
            CatalogField::WindowActive => "window_active"@,
            CatalogField::WindowActivityFlag => "window_activity_flag"@,
            CatalogField::WindowBellFlag => "window_bell_flag"@,
            CatalogField::WindowEndFlag => "window_end_flag"@,
            CatalogField::WindowFlags => "window_flags"@,
            CatalogField::WindowLastFlag => "window_last_flag"@,
            CatalogField::WindowLinked => "window_linked"@,
            CatalogField::WindowMarkedFlag => "window_marked_flag"@,
            CatalogField::WindowRawFlags => "window_raw_flags"@,
            CatalogField::WindowSilenceFlag => "window_silence_flag"@,
            CatalogField::WindowStackIndex => "window_stack_index"@,
            CatalogField::WindowStartFlag => "window_start_flag"@,
            CatalogField::WindowActiveClients => "window_active_clients"@,
            CatalogField::WindowActiveClientsList => "window_active_clients_list"@,
            CatalogField::WindowActiveSessions => "window_active_sessions"@,
            CatalogField::WindowActiveSessionsList => "window_active_sessions_list"@,
            CatalogField::WindowLinkedSessions => "window_linked_sessions"@,
            CatalogField::WindowLinkedSessionsList => "window_linked_sessions_list"@,
            CatalogField::PaneId => "pane_id"@,
            CatalogField::AlternateSavedX => "alternate_saved_x"@,
            CatalogField::AlternateSavedY => "alternate_saved_y"@,
            CatalogField::BracketPasteFlag => "bracket_paste_flag"@,
            CatalogField::CursorCharacter => "cursor_character"@,
            CatalogField::CursorFlag => "cursor_flag"@,
            CatalogField::CursorX => "cursor_x"@,
            CatalogField::CursorY => "cursor_y"@,
            CatalogField::HistoryBytes => "history_bytes"@,
            CatalogField::HistoryLimit => "history_limit"@,
            CatalogField::HistorySize => "history_size"@,
            CatalogField::InsertFlag => "insert_flag"@,
            CatalogField::KeypadCursorFlag => "keypad_cursor_flag"@,
            CatalogField::KeypadFlag => "keypad_flag"@,
            CatalogField::MouseAllFlag => "mouse_all_flag"@,
            CatalogField::MouseAnyFlag => "mouse_any_flag"@,
            CatalogField::MouseButtonFlag => "mouse_button_flag"@,
            CatalogField::MouseSgrFlag => "mouse_sgr_flag"@,
            CatalogField::MouseStandardFlag => "mouse_standard_flag"@,
            CatalogField::OriginFlag => "origin_flag"@,
            CatalogField::PaneActive => "pane_active"@,
            CatalogField::PaneAtBottom => "pane_at_bottom"@,
            CatalogField::PaneAtLeft => "pane_at_left"@,
            CatalogField::PaneAtRight => "pane_at_right"@,
            CatalogField::PaneAtTop => "pane_at_top"@,
            CatalogField::PaneBg => "pane_bg"@,
            CatalogField::PaneBottom => "pane_bottom"@,
            CatalogField::PaneCurrentCommand => "pane_current_command"@,
            CatalogField::PaneCurrentPath => "pane_current_path"@,
            CatalogField::PaneDead => "pane_dead"@,
            CatalogField::PaneDeadSignal => "pane_dead_signal"@,
            CatalogField::PaneDeadStatus => "pane_dead_status"@,
            CatalogField::PaneDeadTime => "pane_dead_time"@,
            CatalogField::PaneFg => "pane_fg"@,
            CatalogField::PaneFlags => "pane_flags"@,
            CatalogField::PaneFloatingFlag => "pane_floating_flag"@,
            CatalogField::PaneHeight => "pane_height"@,
            CatalogField::PaneInMode => "pane_in_mode"@,
            CatalogField::PaneIndex => "pane_index"@,
            CatalogField::PaneInputOff => "pane_input_off"@,
            CatalogField::PaneLast => "pane_last"@,
            CatalogField::PaneLeft => "pane_left"@,
            CatalogField::PaneMarked => "pane_marked"@,
            CatalogField::PaneMode => "pane_mode"@,
            CatalogField::PanePath => "pane_path"@,
            CatalogField::PanePbProgress => "pane_pb_progress"@,
            CatalogField::PanePbState => "pane_pb_state"@,
            CatalogField::PanePid => "pane_pid"@,
            CatalogField::PanePipe => "pane_pipe"@,
            CatalogField::PanePipePid => "pane_pipe_pid"@,
            CatalogField::PaneRight => "pane_right"@,
            CatalogField::PaneSearchString => "pane_search_string"@,
            CatalogField::PaneStartCommand => "pane_start_command"@,
            CatalogField::PaneStartPath => "pane_start_path"@,
            CatalogField::PaneSynchronized => "pane_synchronized"@,
            CatalogField::PaneTabs => "pane_tabs"@,
            CatalogField::PaneTitle => "pane_title"@,
            CatalogField::PaneTop => "pane_top"@,
            CatalogField::PaneTty => "pane_tty"@,
            CatalogField::PaneUnseenChanges => "pane_unseen_changes"@,
            CatalogField::PaneWidth => "pane_width"@,
            CatalogField::PaneX => "pane_x"@,
            CatalogField::PaneY => "pane_y"@,
            CatalogField::PaneZ => "pane_z"@,
            CatalogField::PaneZoomedFlag => "pane_zoomed_flag"@,
            CatalogField::ScrollRegionLower => "scroll_region_lower"@,
            CatalogField::ScrollRegionUpper => "scroll_region_upper"@,
            CatalogField::SynchronizedOutputFlag => "synchronized_output_flag"@,
            CatalogField::WrapFlag => "wrap_flag"@,
            CatalogField::ClientName => "client_name"@,
            CatalogField::ClientActivity => "client_activity"@,
            CatalogField::ClientCellHeight => "client_cell_height"@,
            CatalogField::ClientCellWidth => "client_cell_width"@,
            CatalogField::ClientControlMode => "client_control_mode"@,
            CatalogField::ClientCreated => "client_created"@,
            CatalogField::ClientDiscarded => "client_discarded"@,
            CatalogField::ClientFlags => "client_flags"@,
            CatalogField::ClientHeight => "client_height"@,
            CatalogField::ClientKeyTable => "client_key_table"@,
            CatalogField::ClientPid => "client_pid"@,
            CatalogField::ClientPrefix => "client_prefix"@,
            CatalogField::ClientReadonly => "client_readonly"@,
            CatalogField::ClientTermfeatures => "client_termfeatures"@,
            CatalogField::ClientTermname => "client_termname"@,
            CatalogField::ClientTermtype => "client_termtype"@,
            CatalogField::ClientTty => "client_tty"@,
            CatalogField::ClientUid => "client_uid"@,
            CatalogField::ClientUser => "client_user"@,
            CatalogField::ClientUtf8 => "client_utf8"@,
            CatalogField::ClientWidth => "client_width"@,
            CatalogField::ClientWritten => "client_written"@,
            CatalogField::SessionGroupList => "session_group_list"@,
            CatalogField::ClientSession => "client_session"@,
            CatalogField::ClientLastSession => "client_last_session"@,
            CatalogField::ClientModeFormat => "client_mode_format"@,
        }
    }

    /// The name of the variable.
    pub fn name(self) -> (value: &'static str)
        ensures
            value@ == self.spelling(),
    {
        proof {
            reveal(CatalogField::spelling);
        }
        match self {
            CatalogField::SessionId => "session_id",
            CatalogField::SessionActivity => "session_activity",
            CatalogField::SessionAttached => "session_attached",
            CatalogField::SessionCreated => "session_created",
            CatalogField::SessionLastAttached => "session_last_attached",
            CatalogField::SessionManyAttached => "session_many_attached",
            CatalogField::SessionName => "session_name",
            CatalogField::SessionPath => "session_path",
            CatalogField::SessionWindows => "session_windows",
            CatalogField::WindowId => "window_id",
            CatalogField::WindowActivity => "window_activity",
            CatalogField::WindowCellHeight => "window_cell_height",
            CatalogField::WindowCellWidth => "window_cell_width",
            CatalogField::WindowHeight => "window_height",
            CatalogField::WindowLayout => "window_layout",
            CatalogField::WindowName => "window_name",
            CatalogField::WindowPanes => "window_panes",
            CatalogField::WindowVisibleLayout => "window_visible_layout",
            CatalogField::WindowWidth => "window_width",
            CatalogField::WindowZoomedFlag => "window_zoomed_flag",
            CatalogField::WindowIndex => "window_index",
            CatalogField::WindowActive => "window_active",
            CatalogField::WindowActivityFlag => "window_activity_flag",
            CatalogField::WindowBellFlag => "window_bell_flag",
            CatalogField::WindowEndFlag => "window_end_flag",
            CatalogField::WindowFlags => "window_flags",
            CatalogField::WindowLastFlag => "window_last_flag",
            CatalogField::WindowLinked => "window_linked",
            CatalogField::WindowMarkedFlag => "window_marked_flag",
            CatalogField::WindowRawFlags => "window_raw_flags",
            CatalogField::WindowSilenceFlag => "window_silence_flag",
            CatalogField::WindowStackIndex => "window_stack_index",
            CatalogField::WindowStartFlag => "window_start_flag",
            CatalogField::WindowActiveClients => "window_active_clients",
            CatalogField::WindowActiveClientsList => "window_active_clients_list",
            CatalogField::WindowActiveSessions => "window_active_sessions",
            CatalogField::WindowActiveSessionsList => "window_active_sessions_list",
            CatalogField::WindowLinkedSessions => "window_linked_sessions",
            CatalogField::WindowLinkedSessionsList => "window_linked_sessions_list",
            CatalogField::PaneId => "pane_id",
            CatalogField::AlternateSavedX => "alternate_saved_x",
            CatalogField::AlternateSavedY => "alternate_saved_y",
            CatalogField::BracketPasteFlag => "bracket_paste_flag",
            CatalogField::CursorCharacter => "cursor_character",
            CatalogField::CursorFlag => "cursor_flag",
            CatalogField::CursorX => "cursor_x",
            CatalogField::CursorY => "cursor_y",
            CatalogField::HistoryBytes => "history_bytes",
            CatalogField::HistoryLimit => "history_limit",
            CatalogField::HistorySize => "history_size",
            CatalogField::InsertFlag => "insert_flag",
            CatalogField::KeypadCursorFlag => "keypad_cursor_flag",
            CatalogField::KeypadFlag => "keypad_flag",
            CatalogField::MouseAllFlag => "mouse_all_flag",
            CatalogField::MouseAnyFlag => "mouse_any_flag",
            CatalogField::MouseButtonFlag => "mouse_button_flag",
            CatalogField::MouseSgrFlag => "mouse_sgr_flag",
            CatalogField::MouseStandardFlag => "mouse_standard_flag",
            CatalogField::OriginFlag => "origin_flag",
            CatalogField::PaneActive => "pane_active",
            CatalogField::PaneAtBottom => "pane_at_bottom",
            CatalogField::PaneAtLeft => "pane_at_left",
            CatalogField::PaneAtRight => "pane_at_right",
            CatalogField::PaneAtTop => "pane_at_top",
            CatalogField::PaneBg => "pane_bg",
            CatalogField::PaneBottom => "pane_bottom",
            CatalogField::PaneCurrentCommand => "pane_current_command",
            CatalogField::PaneCurrentPath => "pane_current_path",
            CatalogField::PaneDead => "pane_dead",
            CatalogField::PaneDeadSignal => "pane_dead_signal",
            CatalogField::PaneDeadStatus => "pane_dead_status",
            CatalogField::PaneDeadTime => "pane_dead_time",
            CatalogField::PaneFg => "pane_fg",
            CatalogField::PaneFlags => "pane_flags",
            CatalogField::PaneFloatingFlag => "pane_floating_flag",
            CatalogField::PaneHeight => "pane_height",
            CatalogField::PaneInMode => "pane_in_mode",
            CatalogField::PaneIndex => "pane_index",
            CatalogField::PaneInputOff => "pane_input_off",
            CatalogField::PaneLast => "pane_last",
            CatalogField::PaneLeft => "pane_left",
            CatalogField::PaneMarked => "pane_marked",
            CatalogField::PaneMode => "pane_mode",
            CatalogField::PanePath => "pane_path",
            CatalogField::PanePbProgress => "pane_pb_progress",
            CatalogField::PanePbState => "pane_pb_state",
            CatalogField::PanePid => "pane_pid",
            CatalogField::PanePipe => "pane_pipe",
            CatalogField::PanePipePid => "pane_pipe_pid",
            CatalogField::PaneRight => "pane_right",
            CatalogField::PaneSearchString => "pane_search_string",
            CatalogField::PaneStartCommand => "pane_start_command",
            CatalogField::PaneStartPath => "pane_start_path",
            CatalogField::PaneSynchronized => "pane_synchronized",
            CatalogField::PaneTabs => "pane_tabs",
            CatalogField::PaneTitle => "pane_title",
            CatalogField::PaneTop => "pane_top",
            CatalogField::PaneTty => "pane_tty",
            CatalogField::PaneUnseenChanges => "pane_unseen_changes",
            CatalogField::PaneWidth => "pane_width",
            CatalogField::PaneX => "pane_x",
            CatalogField::PaneY => "pane_y",
            CatalogField::PaneZ => "pane_z",
            CatalogField::PaneZoomedFlag => "pane_zoomed_flag",
            CatalogField::ScrollRegionLower => "scroll_region_lower",
            CatalogField::ScrollRegionUpper => "scroll_region_upper",
            CatalogField::SynchronizedOutputFlag => "synchronized_output_flag",
            CatalogField::WrapFlag => "wrap_flag",
            CatalogField::ClientName => "client_name",
            CatalogField::ClientActivity => "client_activity",
            CatalogField::ClientCellHeight => "client_cell_height",
            CatalogField::ClientCellWidth => "client_cell_width",
            CatalogField::ClientControlMode => "client_control_mode",
            CatalogField::ClientCreated => "client_created",
            CatalogField::ClientDiscarded => "client_discarded",
            CatalogField::ClientFlags => "client_flags",
            CatalogField::ClientHeight => "client_height",
            CatalogField::ClientKeyTable => "client_key_table",
            CatalogField::ClientPid => "client_pid",
            CatalogField::ClientPrefix => "client_prefix",
            CatalogField::ClientReadonly => "client_readonly",
            CatalogField::ClientTermfeatures => "client_termfeatures",
            CatalogField::ClientTermname => "client_termname",
            CatalogField::ClientTermtype => "client_termtype",
            CatalogField::ClientTty => "client_tty",
            CatalogField::ClientUid => "client_uid",
            CatalogField::ClientUser => "client_user",
            CatalogField::ClientUtf8 => "client_utf8",
            CatalogField::ClientWidth => "client_width",
            CatalogField::ClientWritten => "client_written",
            CatalogField::SessionGroupList => "session_group_list",
            CatalogField::ClientSession => "client_session",
            CatalogField::ClientLastSession => "client_last_session",
            CatalogField::ClientModeFormat => "client_mode_format",
        }
    }

    /// How the field is decoded, in contracts.
    #[verifier::opaque]
    pub open spec fn decoded_by(self) -> DecoderKind {
        match self {
            CatalogField::SessionId => DecoderKind::SessionId,
            CatalogField::SessionActivity
            | CatalogField::SessionCreated
            | CatalogField::SessionLastAttached
            | CatalogField::WindowActivity
            | CatalogField::PaneDeadTime
            | CatalogField::ClientActivity
            | CatalogField::ClientCreated => DecoderKind::Timestamp,
            CatalogField::SessionAttached
            | CatalogField::SessionWindows
            | CatalogField::WindowCellHeight
            | CatalogField::WindowCellWidth
            | CatalogField::WindowHeight
            | CatalogField::WindowPanes
            | CatalogField::WindowWidth
            | CatalogField::WindowStackIndex
            | CatalogField::WindowActiveClients
            | CatalogField::WindowActiveSessions
            | CatalogField::WindowLinkedSessions
            | CatalogField::AlternateSavedX
            | CatalogField::AlternateSavedY
            | CatalogField::CursorX
            | CatalogField::CursorY
            | CatalogField::HistoryLimit
            | CatalogField::HistorySize
            | CatalogField::PaneHeight
            | CatalogField::PaneInMode
            | CatalogField::PaneIndex
            | CatalogField::PanePid
            | CatalogField::PanePipePid
            | CatalogField::PaneWidth
            | CatalogField::PaneZ
            | CatalogField::ScrollRegionLower
            | CatalogField::ScrollRegionUpper
            | CatalogField::ClientCellHeight
            | CatalogField::ClientCellWidth
            | CatalogField::ClientHeight
            | CatalogField::ClientPid
            | CatalogField::ClientUid
            | CatalogField::ClientWidth => DecoderKind::U32,
            CatalogField::SessionName
            | CatalogField::SessionPath
            | CatalogField::WindowLayout
            | CatalogField::WindowName
            | CatalogField::WindowVisibleLayout
            | CatalogField::WindowFlags
            | CatalogField::WindowRawFlags
            | CatalogField::WindowActiveClientsList
            | CatalogField::WindowActiveSessionsList
            | CatalogField::WindowLinkedSessionsList
            | CatalogField::CursorCharacter
            | CatalogField::PaneBg
            | CatalogField::PaneCurrentCommand
            | CatalogField::PaneCurrentPath
            | CatalogField::PaneDeadSignal
            | CatalogField::PaneFg
            | CatalogField::PaneFlags
            | CatalogField::PaneMode
            | CatalogField::PanePath
            | CatalogField::PaneSearchString
            | CatalogField::PaneStartCommand
            | CatalogField::PaneStartPath
            | CatalogField::PaneTabs
            | CatalogField::PaneTitle
            | CatalogField::PaneTty
            | CatalogField::ClientName
            | CatalogField::ClientFlags
            | CatalogField::ClientKeyTable
            | CatalogField::ClientTermfeatures
            | CatalogField::ClientTermname
            | CatalogField::ClientTermtype
            | CatalogField::ClientTty
            | CatalogField::ClientUser
            | CatalogField::SessionGroupList
            | CatalogField::ClientSession
            | CatalogField::ClientLastSession
            | CatalogField::ClientModeFormat => DecoderKind::Text,
            CatalogField::WindowId => DecoderKind::WindowId,
            CatalogField::WindowIndex
            | CatalogField::PaneBottom
            | CatalogField::PaneLeft
            | CatalogField::PaneRight
            | CatalogField::PaneTop
            | CatalogField::PaneX
            | CatalogField::PaneY => DecoderKind::I32,
            CatalogField::PaneId => DecoderKind::PaneId,
            CatalogField::HistoryBytes
            | CatalogField::ClientDiscarded
            | CatalogField::ClientWritten => DecoderKind::U64,
            CatalogField::PaneDeadStatus => DecoderKind::U8,
            CatalogField::PanePbProgress => DecoderKind::PaneProgress,
            CatalogField::PanePbState => DecoderKind::PaneProgressState,
            _ => DecoderKind::Bool,
        }
    }

    /// How the field is decoded.
    pub fn decoder(self) -> (value: DecoderKind)
        ensures
            value == self.decoded_by(),
    {
        proof {
            reveal(CatalogField::decoded_by);
        }
        match self {
            CatalogField::SessionId => DecoderKind::SessionId,
            CatalogField::SessionActivity
            | CatalogField::SessionCreated
            | CatalogField::SessionLastAttached
            | CatalogField::WindowActivity
            | CatalogField::PaneDeadTime
            | CatalogField::ClientActivity
            | CatalogField::ClientCreated => DecoderKind::Timestamp,
            CatalogField::SessionAttached
            | CatalogField::SessionWindows
            | CatalogField::WindowCellHeight
            | CatalogField::WindowCellWidth
            | CatalogField::WindowHeight
            | CatalogField::WindowPanes
            | CatalogField::WindowWidth
            | CatalogField::WindowStackIndex
            | CatalogField::WindowActiveClients
            | CatalogField::WindowActiveSessions
            | CatalogField::WindowLinkedSessions
            | CatalogField::AlternateSavedX
            | CatalogField::AlternateSavedY
            | CatalogField::CursorX
            | CatalogField::CursorY
            | CatalogField::HistoryLimit
            | CatalogField::HistorySize
            | CatalogField::PaneHeight
            | CatalogField::PaneInMode
            | CatalogField::PaneIndex
            | CatalogField::PanePid
            | CatalogField::PanePipePid
            | CatalogField::PaneWidth
            | CatalogField::PaneZ
            | CatalogField::ScrollRegionLower
            | CatalogField::ScrollRegionUpper
            | CatalogField::ClientCellHeight
            | CatalogField::ClientCellWidth
            | CatalogField::ClientHeight
            | CatalogField::ClientPid
            | CatalogField::ClientUid
            | CatalogField::ClientWidth => DecoderKind::U32,
            CatalogField::SessionName
            | CatalogField::SessionPath
            | CatalogField::WindowLayout
            | CatalogField::WindowName
            | CatalogField::WindowVisibleLayout
            | CatalogField::WindowFlags
            | CatalogField::WindowRawFlags
            | CatalogField::WindowActiveClientsList
            | CatalogField::WindowActiveSessionsList
            | CatalogField::WindowLinkedSessionsList
            | CatalogField::CursorCharacter
            | CatalogField::PaneBg
            | CatalogField::PaneCurrentCommand
            | CatalogField::PaneCurrentPath
            | CatalogField::PaneDeadSignal
            | CatalogField::PaneFg
            | CatalogField::PaneFlags
            | CatalogField::PaneMode
            | CatalogField::PanePath
            | CatalogField::PaneSearchString
            | CatalogField::PaneStartCommand
            | CatalogField::PaneStartPath
            | CatalogField::PaneTabs
            | CatalogField::PaneTitle
            | CatalogField::PaneTty
            | CatalogField::ClientName
            | CatalogField::ClientFlags
            | CatalogField::ClientKeyTable
            | CatalogField::ClientTermfeatures
            | CatalogField::ClientTermname
            | CatalogField::ClientTermtype
            | CatalogField::ClientTty
            | CatalogField::ClientUser
            | CatalogField::SessionGroupList
            | CatalogField::ClientSession
            | CatalogField::ClientLastSession
            | CatalogField::ClientModeFormat => DecoderKind::Text,
            CatalogField::WindowId => DecoderKind::WindowId,
            CatalogField::WindowIndex
            | CatalogField::PaneBottom
            | CatalogField::PaneLeft
            | CatalogField::PaneRight
            | CatalogField::PaneTop
            | CatalogField::PaneX
            | CatalogField::PaneY => DecoderKind::I32,
            CatalogField::PaneId => DecoderKind::PaneId,
            CatalogField::HistoryBytes
            | CatalogField::ClientDiscarded
            | CatalogField::ClientWritten => DecoderKind::U64,
            CatalogField::PaneDeadStatus => DecoderKind::U8,
            CatalogField::PanePbProgress => DecoderKind::PaneProgress,
            CatalogField::PanePbState => DecoderKind::PaneProgressState,
            _ => DecoderKind::Bool,
        }
    }

    /// The release that first reports the field, in contracts.
    #[verifier::opaque]
    pub open spec fn since(self) -> ReleaseFloor {
        match self {
            CatalogField::BracketPasteFlag
            | CatalogField::PaneFlags
            | CatalogField::PaneFloatingFlag
            | CatalogField::PanePbProgress
            | CatalogField::PanePbState
            | CatalogField::PanePipePid
            | CatalogField::PaneX
            | CatalogField::PaneY
            | CatalogField::PaneZ
            | CatalogField::PaneZoomedFlag
            | CatalogField::SynchronizedOutputFlag => ReleaseFloor::V3_7,
            CatalogField::PaneDeadSignal
            | CatalogField::PaneDeadTime
            | CatalogField::PaneStartPath
            | CatalogField::ClientUid
            | CatalogField::ClientUser => ReleaseFloor::V3_3,
            CatalogField::PaneUnseenChanges => ReleaseFloor::V3_6,
            _ => ReleaseFloor::V3_2a,
        }
    }

    /// The release that first reports the field.
    pub fn floor(self) -> (value: ReleaseFloor)
        ensures
            value == self.since(),
    {
        proof {
            reveal(CatalogField::since);
        }
        match self {
            CatalogField::BracketPasteFlag
            | CatalogField::PaneFlags
            | CatalogField::PaneFloatingFlag
            | CatalogField::PanePbProgress
            | CatalogField::PanePbState
            | CatalogField::PanePipePid
            | CatalogField::PaneX
            | CatalogField::PaneY
            | CatalogField::PaneZ
            | CatalogField::PaneZoomedFlag
            | CatalogField::SynchronizedOutputFlag => ReleaseFloor::V3_7,
            CatalogField::PaneDeadSignal
            | CatalogField::PaneDeadTime
            | CatalogField::PaneStartPath
            | CatalogField::ClientUid
            | CatalogField::ClientUser => ReleaseFloor::V3_3,
            CatalogField::PaneUnseenChanges => ReleaseFloor::V3_6,
            _ => ReleaseFloor::V3_2a,
        }
    }

    /// What an empty field means, in contracts.
    #[verifier::opaque]
    pub open spec fn when_empty(self) -> EmptyPolicy {
        match self {
            CatalogField::SessionLastAttached
            | CatalogField::CursorCharacter
            | CatalogField::PaneCurrentCommand
            | CatalogField::PaneCurrentPath
            | CatalogField::PaneDeadSignal
            | CatalogField::PaneDeadStatus
            | CatalogField::PaneDeadTime
            | CatalogField::PaneMode
            | CatalogField::PanePipePid
            | CatalogField::ClientCellHeight
            | CatalogField::ClientCellWidth
            | CatalogField::ClientHeight
            | CatalogField::ClientLastSession => EmptyPolicy::Absent,
            CatalogField::SessionName
            | CatalogField::SessionPath
            | CatalogField::WindowLayout
            | CatalogField::WindowName
            | CatalogField::WindowVisibleLayout
            | CatalogField::WindowFlags
            | CatalogField::WindowRawFlags
            | CatalogField::WindowActiveClientsList
            | CatalogField::WindowActiveSessionsList
            | CatalogField::WindowLinkedSessionsList
            | CatalogField::PaneBg
            | CatalogField::PaneFg
            | CatalogField::PaneFlags
            | CatalogField::PanePath
            | CatalogField::PaneSearchString
            | CatalogField::PaneStartCommand
            | CatalogField::PaneStartPath
            | CatalogField::PaneTabs
            | CatalogField::PaneTitle
            | CatalogField::PaneTty
            | CatalogField::ClientFlags
            | CatalogField::ClientKeyTable
            | CatalogField::ClientTermfeatures
            | CatalogField::ClientTermname
            | CatalogField::ClientTermtype
            | CatalogField::ClientTty
            | CatalogField::ClientUser
            | CatalogField::SessionGroupList
            | CatalogField::ClientSession
            | CatalogField::ClientModeFormat => EmptyPolicy::Available,
            _ => EmptyPolicy::Required,
        }
    }

    /// What an empty field means.
    pub fn empty_policy(self) -> (value: EmptyPolicy)
        ensures
            value == self.when_empty(),
    {
        proof {
            reveal(CatalogField::when_empty);
        }
        match self {
            CatalogField::SessionLastAttached
            | CatalogField::CursorCharacter
            | CatalogField::PaneCurrentCommand
            | CatalogField::PaneCurrentPath
            | CatalogField::PaneDeadSignal
            | CatalogField::PaneDeadStatus
            | CatalogField::PaneDeadTime
            | CatalogField::PaneMode
            | CatalogField::PanePipePid
            | CatalogField::ClientCellHeight
            | CatalogField::ClientCellWidth
            | CatalogField::ClientHeight
            | CatalogField::ClientLastSession => EmptyPolicy::Absent,
            CatalogField::SessionName
            | CatalogField::SessionPath
            | CatalogField::WindowLayout
            | CatalogField::WindowName
            | CatalogField::WindowVisibleLayout
            | CatalogField::WindowFlags
            | CatalogField::WindowRawFlags
            | CatalogField::WindowActiveClientsList
            | CatalogField::WindowActiveSessionsList
            | CatalogField::WindowLinkedSessionsList
            | CatalogField::PaneBg
            | CatalogField::PaneFg
            | CatalogField::PaneFlags
            | CatalogField::PanePath
            | CatalogField::PaneSearchString
            | CatalogField::PaneStartCommand
            | CatalogField::PaneStartPath
            | CatalogField::PaneTabs
            | CatalogField::PaneTitle
            | CatalogField::PaneTty
            | CatalogField::ClientFlags
            | CatalogField::ClientKeyTable
            | CatalogField::ClientTermfeatures
            | CatalogField::ClientTermname
            | CatalogField::ClientTermtype
            | CatalogField::ClientTty
            | CatalogField::ClientUser
            | CatalogField::SessionGroupList
            | CatalogField::ClientSession
            | CatalogField::ClientModeFormat => EmptyPolicy::Available,
            _ => EmptyPolicy::Required,
        }
    }

    /// The object that the field describes, in contracts.
    #[verifier::opaque]
    pub open spec fn describes(self) -> FieldOwner {
        match self {
            CatalogField::SessionId
            | CatalogField::SessionActivity
            | CatalogField::SessionAttached
            | CatalogField::SessionCreated
            | CatalogField::SessionLastAttached
            | CatalogField::SessionManyAttached
            | CatalogField::SessionName
            | CatalogField::SessionPath
            | CatalogField::SessionWindows
            | CatalogField::SessionGroupList => FieldOwner::Session,
            CatalogField::WindowId
            | CatalogField::WindowActivity
            | CatalogField::WindowCellHeight
            | CatalogField::WindowCellWidth
            | CatalogField::WindowHeight
            | CatalogField::WindowLayout
            | CatalogField::WindowName
            | CatalogField::WindowPanes
            | CatalogField::WindowVisibleLayout
            | CatalogField::WindowWidth
            | CatalogField::WindowZoomedFlag
            | CatalogField::WindowIndex
            | CatalogField::WindowActive
            | CatalogField::WindowActivityFlag
            | CatalogField::WindowBellFlag
            | CatalogField::WindowEndFlag
            | CatalogField::WindowFlags
            | CatalogField::WindowLastFlag
            | CatalogField::WindowLinked
            | CatalogField::WindowMarkedFlag
            | CatalogField::WindowRawFlags
            | CatalogField::WindowSilenceFlag
            | CatalogField::WindowStackIndex
            | CatalogField::WindowStartFlag
            | CatalogField::WindowActiveClients
            | CatalogField::WindowActiveClientsList
            | CatalogField::WindowActiveSessions
            | CatalogField::WindowActiveSessionsList
            | CatalogField::WindowLinkedSessions
            | CatalogField::WindowLinkedSessionsList => FieldOwner::Window,
            CatalogField::ClientName
            | CatalogField::ClientActivity
            | CatalogField::ClientCellHeight
            | CatalogField::ClientCellWidth
            | CatalogField::ClientControlMode
            | CatalogField::ClientCreated
            | CatalogField::ClientDiscarded
            | CatalogField::ClientFlags
            | CatalogField::ClientHeight
            | CatalogField::ClientKeyTable
            | CatalogField::ClientPid
            | CatalogField::ClientPrefix
            | CatalogField::ClientReadonly
            | CatalogField::ClientTermfeatures
            | CatalogField::ClientTermname
            | CatalogField::ClientTermtype
            | CatalogField::ClientTty
            | CatalogField::ClientUid
            | CatalogField::ClientUser
            | CatalogField::ClientUtf8
            | CatalogField::ClientWidth
            | CatalogField::ClientWritten
            | CatalogField::ClientSession
            | CatalogField::ClientLastSession => FieldOwner::Client,
            CatalogField::ClientModeFormat => FieldOwner::Shared,
            _ => FieldOwner::Pane,
        }
    }

    /// The object that the field describes.
    pub fn owner(self) -> (value: FieldOwner)
        ensures
            value == self.describes(),
    {
        proof {
            reveal(CatalogField::describes);
        }
        match self {
            CatalogField::SessionId
            | CatalogField::SessionActivity
            | CatalogField::SessionAttached
            | CatalogField::SessionCreated
            | CatalogField::SessionLastAttached
            | CatalogField::SessionManyAttached
            | CatalogField::SessionName
            | CatalogField::SessionPath
            | CatalogField::SessionWindows
            | CatalogField::SessionGroupList => FieldOwner::Session,
            CatalogField::WindowId
            | CatalogField::WindowActivity
            | CatalogField::WindowCellHeight
            | CatalogField::WindowCellWidth
            | CatalogField::WindowHeight
            | CatalogField::WindowLayout
            | CatalogField::WindowName
            | CatalogField::WindowPanes
            | CatalogField::WindowVisibleLayout
            | CatalogField::WindowWidth
            | CatalogField::WindowZoomedFlag
            | CatalogField::WindowIndex
            | CatalogField::WindowActive
            | CatalogField::WindowActivityFlag
            | CatalogField::WindowBellFlag
            | CatalogField::WindowEndFlag
            | CatalogField::WindowFlags
            | CatalogField::WindowLastFlag
            | CatalogField::WindowLinked
            | CatalogField::WindowMarkedFlag
            | CatalogField::WindowRawFlags
            | CatalogField::WindowSilenceFlag
            | CatalogField::WindowStackIndex
            | CatalogField::WindowStartFlag
            | CatalogField::WindowActiveClients
            | CatalogField::WindowActiveClientsList
            | CatalogField::WindowActiveSessions
            | CatalogField::WindowActiveSessionsList
            | CatalogField::WindowLinkedSessions
            | CatalogField::WindowLinkedSessionsList => FieldOwner::Window,
            CatalogField::ClientName
            | CatalogField::ClientActivity
            | CatalogField::ClientCellHeight
            | CatalogField::ClientCellWidth
            | CatalogField::ClientControlMode
            | CatalogField::ClientCreated
            | CatalogField::ClientDiscarded
            | CatalogField::ClientFlags
            | CatalogField::ClientHeight
            | CatalogField::ClientKeyTable
            | CatalogField::ClientPid
            | CatalogField::ClientPrefix
            | CatalogField::ClientReadonly
            | CatalogField::ClientTermfeatures
            | CatalogField::ClientTermname
            | CatalogField::ClientTermtype
            | CatalogField::ClientTty
            | CatalogField::ClientUid
            | CatalogField::ClientUser
            | CatalogField::ClientUtf8
            | CatalogField::ClientWidth
            | CatalogField::ClientWritten
            | CatalogField::ClientSession
            | CatalogField::ClientLastSession => FieldOwner::Client,
            CatalogField::ClientModeFormat => FieldOwner::Shared,
            _ => FieldOwner::Pane,
        }
    }

    /// Where the field stands in the snapshot of its object, in contracts.
    #[verifier::opaque]
    pub open spec fn place(self) -> int {
        match self {
            CatalogField::SessionId => 0,
            CatalogField::SessionActivity => 1,
            CatalogField::SessionAttached => 2,
            CatalogField::SessionCreated => 3,
            CatalogField::SessionLastAttached => 4,
            CatalogField::SessionManyAttached => 5,
            CatalogField::SessionName => 6,
            CatalogField::SessionPath => 7,
            CatalogField::SessionWindows => 8,
            CatalogField::WindowId => 0,
            CatalogField::WindowActivity => 1,
            CatalogField::WindowCellHeight => 2,
            CatalogField::WindowCellWidth => 3,
            CatalogField::WindowHeight => 4,
            CatalogField::WindowLayout => 5,
            CatalogField::WindowName => 6,
            CatalogField::WindowPanes => 7,
            CatalogField::WindowVisibleLayout => 8,
            CatalogField::WindowWidth => 9,
            CatalogField::WindowZoomedFlag => 10,
            CatalogField::PaneId => 0,
            CatalogField::AlternateSavedX => 1,
            CatalogField::AlternateSavedY => 2,
            CatalogField::BracketPasteFlag => 3,
            CatalogField::CursorCharacter => 4,
            CatalogField::CursorFlag => 5,
            CatalogField::CursorX => 6,
            CatalogField::CursorY => 7,
            CatalogField::HistoryBytes => 8,
            CatalogField::HistoryLimit => 9,
            CatalogField::HistorySize => 10,
            CatalogField::InsertFlag => 11,
            CatalogField::KeypadCursorFlag => 12,
            CatalogField::KeypadFlag => 13,
            CatalogField::MouseAllFlag => 14,
            CatalogField::MouseAnyFlag => 15,
            CatalogField::MouseButtonFlag => 16,
            CatalogField::MouseSgrFlag => 17,
            CatalogField::MouseStandardFlag => 18,
            CatalogField::OriginFlag => 19,
            CatalogField::PaneActive => 20,
            CatalogField::PaneAtBottom => 21,
            CatalogField::PaneAtLeft => 22,
            CatalogField::PaneAtRight => 23,
            CatalogField::PaneAtTop => 24,
            CatalogField::PaneBg => 25,
            CatalogField::PaneBottom => 26,
            CatalogField::PaneCurrentCommand => 27,
            CatalogField::PaneCurrentPath => 28,
            CatalogField::PaneDead => 29,
            CatalogField::PaneDeadSignal => 30,
            CatalogField::PaneDeadStatus => 31,
            CatalogField::PaneDeadTime => 32,
            CatalogField::PaneFg => 33,
            CatalogField::PaneFlags => 34,
            CatalogField::PaneFloatingFlag => 35,
            CatalogField::PaneHeight => 36,
            CatalogField::PaneInMode => 37,
            CatalogField::PaneIndex => 38,
            CatalogField::PaneInputOff => 39,
            CatalogField::PaneLast => 40,
            CatalogField::PaneLeft => 41,
            CatalogField::PaneMarked => 42,
            CatalogField::PaneMode => 43,
            CatalogField::PanePath => 44,
            CatalogField::PanePbProgress => 45,
            CatalogField::PanePbState => 46,
            CatalogField::PanePid => 47,
            CatalogField::PanePipe => 48,
            CatalogField::PanePipePid => 49,
            CatalogField::PaneRight => 50,
            CatalogField::PaneSearchString => 51,
            CatalogField::PaneStartCommand => 52,
            CatalogField::PaneStartPath => 53,
            CatalogField::PaneSynchronized => 54,
            CatalogField::PaneTabs => 55,
            CatalogField::PaneTitle => 56,
            CatalogField::PaneTop => 57,
            CatalogField::PaneTty => 58,
            CatalogField::PaneUnseenChanges => 59,
            CatalogField::PaneWidth => 60,
            CatalogField::PaneX => 61,
            CatalogField::PaneY => 62,
            CatalogField::PaneZ => 63,
            CatalogField::PaneZoomedFlag => 64,
            CatalogField::ScrollRegionLower => 65,
            CatalogField::ScrollRegionUpper => 66,
            CatalogField::SynchronizedOutputFlag => 67,
            CatalogField::WrapFlag => 68,
            CatalogField::ClientName => 0,
            CatalogField::ClientActivity => 1,
            CatalogField::ClientCellHeight => 2,
            CatalogField::ClientCellWidth => 3,
            CatalogField::ClientControlMode => 4,
            CatalogField::ClientCreated => 5,
            CatalogField::ClientDiscarded => 6,
            CatalogField::ClientFlags => 7,
            CatalogField::ClientHeight => 8,
            CatalogField::ClientKeyTable => 9,
            CatalogField::ClientPid => 10,
            CatalogField::ClientPrefix => 11,
            CatalogField::ClientReadonly => 12,
            CatalogField::ClientTermfeatures => 13,
            CatalogField::ClientTermname => 14,
            CatalogField::ClientTermtype => 15,
            CatalogField::ClientTty => 16,
            CatalogField::ClientUid => 17,
            CatalogField::ClientUser => 18,
            CatalogField::ClientUtf8 => 19,
            CatalogField::ClientWidth => 20,
            CatalogField::ClientWritten => 21,
            _ => -1,
        }
    }
}

/// The fields of a session's snapshot, in order, in contracts.
#[verifier::opaque]
pub open spec fn session_field(index: int) -> CatalogField {
    if index == 0 {
        CatalogField::SessionId
    } else if index == 1 {
        CatalogField::SessionActivity
    } else if index == 2 {
        CatalogField::SessionAttached
    } else if index == 3 {
        CatalogField::SessionCreated
    } else if index == 4 {
        CatalogField::SessionLastAttached
    } else if index == 5 {
        CatalogField::SessionManyAttached
    } else if index == 6 {
        CatalogField::SessionName
    } else if index == 7 {
        CatalogField::SessionPath
    } else {
        CatalogField::SessionWindows
    }
}

/// The fields of a session's snapshot, in order.
fn session_field_at(index: usize) -> (field: CatalogField)
    requires
        index < 9,
    ensures
        field == session_field(index as int),
{
    proof {
        reveal(session_field);
    }
    match index {
        0 => CatalogField::SessionId,
        1 => CatalogField::SessionActivity,
        2 => CatalogField::SessionAttached,
        3 => CatalogField::SessionCreated,
        4 => CatalogField::SessionLastAttached,
        5 => CatalogField::SessionManyAttached,
        6 => CatalogField::SessionName,
        7 => CatalogField::SessionPath,
        _ => CatalogField::SessionWindows,
    }
}

/// The fields of a window's snapshot, in order, in contracts.
#[verifier::opaque]
pub open spec fn window_field(index: int) -> CatalogField {
    if index == 0 {
        CatalogField::WindowId
    } else if index == 1 {
        CatalogField::WindowActivity
    } else if index == 2 {
        CatalogField::WindowCellHeight
    } else if index == 3 {
        CatalogField::WindowCellWidth
    } else if index == 4 {
        CatalogField::WindowHeight
    } else if index == 5 {
        CatalogField::WindowLayout
    } else if index == 6 {
        CatalogField::WindowName
    } else if index == 7 {
        CatalogField::WindowPanes
    } else if index == 8 {
        CatalogField::WindowVisibleLayout
    } else if index == 9 {
        CatalogField::WindowWidth
    } else {
        CatalogField::WindowZoomedFlag
    }
}

/// The fields of a window's snapshot, in order.
fn window_field_at(index: usize) -> (field: CatalogField)
    requires
        index < 11,
    ensures
        field == window_field(index as int),
{
    proof {
        reveal(window_field);
    }
    match index {
        0 => CatalogField::WindowId,
        1 => CatalogField::WindowActivity,
        2 => CatalogField::WindowCellHeight,
        3 => CatalogField::WindowCellWidth,
        4 => CatalogField::WindowHeight,
        5 => CatalogField::WindowLayout,
        6 => CatalogField::WindowName,
        7 => CatalogField::WindowPanes,
        8 => CatalogField::WindowVisibleLayout,
        9 => CatalogField::WindowWidth,
        _ => CatalogField::WindowZoomedFlag,
    }
}

/// The fields of a pane's snapshot, in order, in contracts.
#[verifier::opaque]
pub open spec fn pane_field(index: int) -> CatalogField {
    if index == 0 {
        CatalogField::PaneId
    } else if index == 1 {
        CatalogField::AlternateSavedX
    } else if index == 2 {
        CatalogField::AlternateSavedY
    } else if index == 3 {
        CatalogField::BracketPasteFlag
    } else if index == 4 {
        CatalogField::CursorCharacter
    } else if index == 5 {
        CatalogField::CursorFlag
    } else if index == 6 {
        CatalogField::CursorX
    } else if index == 7 {
        CatalogField::CursorY
    } else if index == 8 {
        CatalogField::HistoryBytes
    } else if index == 9 {
        CatalogField::HistoryLimit
    } else if index == 10 {
        CatalogField::HistorySize
    } else if index == 11 {
        CatalogField::InsertFlag
    } else if index == 12 {
        CatalogField::KeypadCursorFlag
    } else if index == 13 {
        CatalogField::KeypadFlag
    } else if index == 14 {
        CatalogField::MouseAllFlag
    } else if index == 15 {
        CatalogField::MouseAnyFlag
    } else if index == 16 {
        CatalogField::MouseButtonFlag
    } else if index == 17 {
        CatalogField::MouseSgrFlag
    } else if index == 18 {
        CatalogField::MouseStandardFlag
    } else if index == 19 {
        CatalogField::OriginFlag
    } else if index == 20 {
        CatalogField::PaneActive
    } else if index == 21 {
        CatalogField::PaneAtBottom
    } else if index == 22 {
        CatalogField::PaneAtLeft
    } else if index == 23 {
        CatalogField::PaneAtRight
    } else if index == 24 {
        CatalogField::PaneAtTop
    } else if index == 25 {
        CatalogField::PaneBg
    } else if index == 26 {
        CatalogField::PaneBottom
    } else if index == 27 {
        CatalogField::PaneCurrentCommand
    } else if index == 28 {
        CatalogField::PaneCurrentPath
    } else if index == 29 {
        CatalogField::PaneDead
    } else if index == 30 {
        CatalogField::PaneDeadSignal
    } else if index == 31 {
        CatalogField::PaneDeadStatus
    } else if index == 32 {
        CatalogField::PaneDeadTime
    } else if index == 33 {
        CatalogField::PaneFg
    } else if index == 34 {
        CatalogField::PaneFlags
    } else if index == 35 {
        CatalogField::PaneFloatingFlag
    } else if index == 36 {
        CatalogField::PaneHeight
    } else if index == 37 {
        CatalogField::PaneInMode
    } else if index == 38 {
        CatalogField::PaneIndex
    } else if index == 39 {
        CatalogField::PaneInputOff
    } else if index == 40 {
        CatalogField::PaneLast
    } else if index == 41 {
        CatalogField::PaneLeft
    } else if index == 42 {
        CatalogField::PaneMarked
    } else if index == 43 {
        CatalogField::PaneMode
    } else if index == 44 {
        CatalogField::PanePath
    } else if index == 45 {
        CatalogField::PanePbProgress
    } else if index == 46 {
        CatalogField::PanePbState
    } else if index == 47 {
        CatalogField::PanePid
    } else if index == 48 {
        CatalogField::PanePipe
    } else if index == 49 {
        CatalogField::PanePipePid
    } else if index == 50 {
        CatalogField::PaneRight
    } else if index == 51 {
        CatalogField::PaneSearchString
    } else if index == 52 {
        CatalogField::PaneStartCommand
    } else if index == 53 {
        CatalogField::PaneStartPath
    } else if index == 54 {
        CatalogField::PaneSynchronized
    } else if index == 55 {
        CatalogField::PaneTabs
    } else if index == 56 {
        CatalogField::PaneTitle
    } else if index == 57 {
        CatalogField::PaneTop
    } else if index == 58 {
        CatalogField::PaneTty
    } else if index == 59 {
        CatalogField::PaneUnseenChanges
    } else if index == 60 {
        CatalogField::PaneWidth
    } else if index == 61 {
        CatalogField::PaneX
    } else if index == 62 {
        CatalogField::PaneY
    } else if index == 63 {
        CatalogField::PaneZ
    } else if index == 64 {
        CatalogField::PaneZoomedFlag
    } else if index == 65 {
        CatalogField::ScrollRegionLower
    } else if index == 66 {
        CatalogField::ScrollRegionUpper
    } else if index == 67 {
        CatalogField::SynchronizedOutputFlag
    } else {
        CatalogField::WrapFlag
    }
}

/// The fields of a pane's snapshot, in order.
fn pane_field_at(index: usize) -> (field: CatalogField)
    requires
        index < 69,
    ensures
        field == pane_field(index as int),
{
    proof {
        reveal(pane_field);
    }
    match index {
        0 => CatalogField::PaneId,
        1 => CatalogField::AlternateSavedX,
        2 => CatalogField::AlternateSavedY,
        3 => CatalogField::BracketPasteFlag,
        4 => CatalogField::CursorCharacter,
        5 => CatalogField::CursorFlag,
        6 => CatalogField::CursorX,
        7 => CatalogField::CursorY,
        8 => CatalogField::HistoryBytes,
        9 => CatalogField::HistoryLimit,
        10 => CatalogField::HistorySize,
        11 => CatalogField::InsertFlag,
        12 => CatalogField::KeypadCursorFlag,
        13 => CatalogField::KeypadFlag,
        14 => CatalogField::MouseAllFlag,
        15 => CatalogField::MouseAnyFlag,
        16 => CatalogField::MouseButtonFlag,
        17 => CatalogField::MouseSgrFlag,
        18 => CatalogField::MouseStandardFlag,
        19 => CatalogField::OriginFlag,
        20 => CatalogField::PaneActive,
        21 => CatalogField::PaneAtBottom,
        22 => CatalogField::PaneAtLeft,
        23 => CatalogField::PaneAtRight,
        24 => CatalogField::PaneAtTop,
        25 => CatalogField::PaneBg,
        26 => CatalogField::PaneBottom,
        27 => CatalogField::PaneCurrentCommand,
        28 => CatalogField::PaneCurrentPath,
        29 => CatalogField::PaneDead,
        30 => CatalogField::PaneDeadSignal,
        31 => CatalogField::PaneDeadStatus,
        32 => CatalogField::PaneDeadTime,
        33 => CatalogField::PaneFg,
        34 => CatalogField::PaneFlags,
        35 => CatalogField::PaneFloatingFlag,
        36 => CatalogField::PaneHeight,
        37 => CatalogField::PaneInMode,
        38 => CatalogField::PaneIndex,
        39 => CatalogField::PaneInputOff,
        40 => CatalogField::PaneLast,
        41 => CatalogField::PaneLeft,
        42 => CatalogField::PaneMarked,
        43 => CatalogField::PaneMode,
        44 => CatalogField::PanePath,
        45 => CatalogField::PanePbProgress,
        46 => CatalogField::PanePbState,
        47 => CatalogField::PanePid,
        48 => CatalogField::PanePipe,
        49 => CatalogField::PanePipePid,
        50 => CatalogField::PaneRight,
        51 => CatalogField::PaneSearchString,
        52 => CatalogField::PaneStartCommand,
        53 => CatalogField::PaneStartPath,
        54 => CatalogField::PaneSynchronized,
        55 => CatalogField::PaneTabs,
        56 => CatalogField::PaneTitle,
        57 => CatalogField::PaneTop,
        58 => CatalogField::PaneTty,
        59 => CatalogField::PaneUnseenChanges,
        60 => CatalogField::PaneWidth,
        61 => CatalogField::PaneX,
        62 => CatalogField::PaneY,
        63 => CatalogField::PaneZ,
        64 => CatalogField::PaneZoomedFlag,
        65 => CatalogField::ScrollRegionLower,
        66 => CatalogField::ScrollRegionUpper,
        67 => CatalogField::SynchronizedOutputFlag,
        _ => CatalogField::WrapFlag,
    }
}

/// The fields of a client's snapshot, in order, in contracts.
#[verifier::opaque]
pub open spec fn client_field(index: int) -> CatalogField {
    if index == 0 {
        CatalogField::ClientName
    } else if index == 1 {
        CatalogField::ClientActivity
    } else if index == 2 {
        CatalogField::ClientCellHeight
    } else if index == 3 {
        CatalogField::ClientCellWidth
    } else if index == 4 {
        CatalogField::ClientControlMode
    } else if index == 5 {
        CatalogField::ClientCreated
    } else if index == 6 {
        CatalogField::ClientDiscarded
    } else if index == 7 {
        CatalogField::ClientFlags
    } else if index == 8 {
        CatalogField::ClientHeight
    } else if index == 9 {
        CatalogField::ClientKeyTable
    } else if index == 10 {
        CatalogField::ClientPid
    } else if index == 11 {
        CatalogField::ClientPrefix
    } else if index == 12 {
        CatalogField::ClientReadonly
    } else if index == 13 {
        CatalogField::ClientTermfeatures
    } else if index == 14 {
        CatalogField::ClientTermname
    } else if index == 15 {
        CatalogField::ClientTermtype
    } else if index == 16 {
        CatalogField::ClientTty
    } else if index == 17 {
        CatalogField::ClientUid
    } else if index == 18 {
        CatalogField::ClientUser
    } else if index == 19 {
        CatalogField::ClientUtf8
    } else if index == 20 {
        CatalogField::ClientWidth
    } else {
        CatalogField::ClientWritten
    }
}

/// The fields of a client's snapshot, in order.
fn client_field_at(index: usize) -> (field: CatalogField)
    requires
        index < 22,
    ensures
        field == client_field(index as int),
{
    proof {
        reveal(client_field);
    }
    match index {
        0 => CatalogField::ClientName,
        1 => CatalogField::ClientActivity,
        2 => CatalogField::ClientCellHeight,
        3 => CatalogField::ClientCellWidth,
        4 => CatalogField::ClientControlMode,
        5 => CatalogField::ClientCreated,
        6 => CatalogField::ClientDiscarded,
        7 => CatalogField::ClientFlags,
        8 => CatalogField::ClientHeight,
        9 => CatalogField::ClientKeyTable,
        10 => CatalogField::ClientPid,
        11 => CatalogField::ClientPrefix,
        12 => CatalogField::ClientReadonly,
        13 => CatalogField::ClientTermfeatures,
        14 => CatalogField::ClientTermname,
        15 => CatalogField::ClientTermtype,
        16 => CatalogField::ClientTty,
        17 => CatalogField::ClientUid,
        18 => CatalogField::ClientUser,
        19 => CatalogField::ClientUtf8,
        20 => CatalogField::ClientWidth,
        _ => CatalogField::ClientWritten,
    }
}

impl InfoPlacement {
    /// How many fields a snapshot has.
    pub open spec fn count(self) -> nat {
        match self {
            InfoPlacement::SessionInfo => 9,
            InfoPlacement::WindowInfo => 11,
            InfoPlacement::PaneInfo => 69,
            InfoPlacement::ClientInfo => 22,
        }
    }

    /// The fields of a snapshot, in order. The first one is its identity.
    pub open spec fn field(self, index: int) -> CatalogField {
        match self {
            InfoPlacement::SessionInfo => session_field(index),
            InfoPlacement::WindowInfo => window_field(index),
            InfoPlacement::PaneInfo => pane_field(index),
            InfoPlacement::ClientInfo => client_field(index),
        }
    }

    /// How many fields a snapshot has.
    pub fn field_count(self) -> (count: usize)
        ensures
            count == self.count(),
            0 < count < 100,
    {
        match self {
            InfoPlacement::SessionInfo => 9,
            InfoPlacement::WindowInfo => 11,
            InfoPlacement::PaneInfo => 69,
            InfoPlacement::ClientInfo => 22,
        }
    }

    /// The field of a snapshot at a position.
    pub fn field_at(self, index: usize) -> (field: CatalogField)
        requires
            index < self.count(),
        ensures
            field == self.field(index as int),
    {
        match self {
            InfoPlacement::SessionInfo => session_field_at(index),
            InfoPlacement::WindowInfo => window_field_at(index),
            InfoPlacement::PaneInfo => pane_field_at(index),
            InfoPlacement::ClientInfo => client_field_at(index),
        }
    }

    /// The name that filter expressions give to the object.
    pub open spec fn target(self) -> Seq<char> {
        match self {
            InfoPlacement::SessionInfo => "session"@,
            InfoPlacement::WindowInfo => "window"@,
            InfoPlacement::PaneInfo => "pane"@,
            InfoPlacement::ClientInfo => "client"@,
        }
    }

    /// The name that filter expressions give to the object.
    pub fn filter_target(self) -> (target: &'static str)
        ensures
            target@ == self.target(),
    {
        match self {
            InfoPlacement::SessionInfo => "session",
            InfoPlacement::WindowInfo => "window",
            InfoPlacement::PaneInfo => "pane",
            InfoPlacement::ClientInfo => "client",
        }
    }
}

/// Every field of a snapshot describes its object.
pub proof fn law_snapshot_fields_describe_their_object(placement: InfoPlacement, index: int)
    requires
        0 <= index < placement.count(),
    ensures
        placement.field(index).describes() == match placement {
            InfoPlacement::SessionInfo => FieldOwner::Session,
            InfoPlacement::WindowInfo => FieldOwner::Window,
            InfoPlacement::PaneInfo => FieldOwner::Pane,
            InfoPlacement::ClientInfo => FieldOwner::Client,
        },
{
    reveal(session_field);
    reveal(window_field);
    reveal(pane_field);
    reveal(client_field);
    reveal(CatalogField::describes);
}

/// The snapshot of an object has each of its fields in one place.
pub proof fn law_snapshot_fields_have_one_place(placement: InfoPlacement, index: int)
    requires
        0 <= index < placement.count(),
    ensures
        placement.field(index).place() == index,
{
    reveal(session_field);
    reveal(window_field);
    reveal(pane_field);
    reveal(client_field);
    reveal(CatalogField::place);
}

/// The identity of an object is reported by every supported release and never
/// empty.
pub proof fn law_identities_are_required(placement: InfoPlacement)
    ensures
        placement.field(0).since() == ReleaseFloor::V3_2a,
        placement.field(0).when_empty() == EmptyPolicy::Required,
{
    reveal(session_field);
    reveal(window_field);
    reveal(pane_field);
    reveal(client_field);
    reveal(CatalogField::since);
    reveal(CatalogField::when_empty);
}

/// The fields that releases behind the first supported one added, and what an
/// empty field means: the ones that are absent where they are empty, and the
/// ones that are empty texts.
pub proof fn law_fields_by_release_and_emptiness(field: CatalogField)
    ensures
        field.since() is V3_3 <==> field is PaneDeadSignal || field is PaneDeadTime
            || field is PaneStartPath || field is ClientUid || field is ClientUser,
        field.since() is V3_6 <==> field is PaneUnseenChanges,
        field.since() is V3_7 <==> field is BracketPasteFlag || field is PaneFlags
            || field is PaneFloatingFlag || field is PanePbProgress || field is PanePbState
            || field is PanePipePid || field is PaneX || field is PaneY || field is PaneZ
            || field is PaneZoomedFlag || field is SynchronizedOutputFlag,
        field.when_empty() is Absent <==> field is SessionLastAttached || field is CursorCharacter
            || field is PaneCurrentCommand || field is PaneCurrentPath || field is PaneDeadSignal
            || field is PaneDeadStatus || field is PaneDeadTime || field is PaneMode
            || field is PanePipePid || field is ClientCellHeight || field is ClientCellWidth
            || field is ClientHeight || field is ClientLastSession,
        field.when_empty() is Available <==> field is SessionName || field is SessionPath
            || field is WindowLayout || field is WindowName || field is WindowVisibleLayout
            || field is WindowFlags || field is WindowRawFlags || field is WindowActiveClientsList
            || field is WindowActiveSessionsList || field is WindowLinkedSessionsList
            || field is PaneBg || field is PaneFg || field is PaneFlags || field is PanePath
            || field is PaneSearchString || field is PaneStartCommand || field is PaneStartPath
            || field is PaneTabs || field is PaneTitle || field is PaneTty || field is ClientFlags
            || field is ClientKeyTable || field is ClientTermfeatures || field is ClientTermname
            || field is ClientTermtype || field is ClientTty || field is ClientUser
            || field is SessionGroupList || field is ClientSession || field is ClientModeFormat,
        field.when_empty() is Available ==> field.decoded_by() is Text || field.decoded_by() is Ascii,
{
    reveal(CatalogField::since);
    reveal(CatalogField::when_empty);
    reveal(CatalogField::decoded_by);
}

/// How many fields each snapshot has.
pub proof fn law_snapshots_have_their_fields(placement: InfoPlacement)
    ensures
        placement is SessionInfo ==> placement.count() == 9 && placement.field(0) is SessionId
            && placement.target() == "session"@,
        placement is WindowInfo ==> placement.count() == 11 && placement.field(0) is WindowId
            && placement.target() == "window"@,
        placement is PaneInfo ==> placement.count() == 69 && placement.field(0) is PaneId
            && placement.target() == "pane"@,
        placement is ClientInfo ==> placement.count() == 22 && placement.field(0) is ClientName
            && placement.target() == "client"@,
{
    reveal(session_field);
    reveal(window_field);
    reveal(pane_field);
    reveal(client_field);
}

} // verus!
