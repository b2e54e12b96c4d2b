//! The snapshot of a pane and the handles of its fields.

use vstd::prelude::*;

use crate::formats::catalog;
use crate::formats::catalog::CatalogField;
use crate::formats::catalog::InfoPlacement;
use crate::formats::error;
use crate::formats::error::FormatCodecError;
use crate::formats::plan::FormatPlan;
use crate::formats::plan::ParsedRow;
use crate::query::error::FilterExpressionError;
use crate::query::error::FilterExpressionErrorKind;
use crate::query::fields::BoolField;
use crate::query::fields::EnumField;
use crate::query::fields::IntegerField;
use crate::query::fields::TextField;
use crate::query::filterable::Filterable;
use crate::query::model;
use crate::query::private::Predicate;
use crate::query::private::bool_field;
use crate::query::private::enum_field;
use crate::query::private::integer_field;
use crate::query::private::text_field;
use crate::query::schema;
use crate::query::schema::FilterSchema;
use crate::query::schema::FilterSchemaDescriptor;
use crate::snapshot::hydrator::RowHydrator;
use crate::snapshot::record;
use crate::snapshot::record::Record;
use crate::snapshot::record::describe;
use crate::snapshot::record::validate_field;
use crate::snapshot::value;
use crate::snapshot::value::Availability;
use crate::snapshot::value::PaneProgressState;
use crate::target::PaneId;
use crate::text::TmuxText;

verus! {

/// The snapshot of a pane: the fields that tmux reports of it.
pub struct PaneInfo {
    record: Record,
}

/// The outcome of hydration in contracts.
pub open spec fn info_view(read: Result<PaneInfo, FormatCodecError>) -> Result<
    record::RecordV,
    error::ErrorV,
> {
    match read {
        Ok(info) => Ok(info@),
        Err(failure) => Err(failure@),
    }
}

/// The snapshots of a list in contracts.
pub open spec fn info_views(infos: Seq<PaneInfo>) -> Seq<record::RecordV> {
    infos.map_values(|info: PaneInfo| info@)
}

impl PaneInfo {
    /// The snapshot in contracts.
    pub closed spec fn view(&self) -> record::RecordV {
        self.record@
    }

    #[verifier::type_invariant]
    spec fn valid(self) -> bool {
        self.record@.placement == InfoPlacement::PaneInfo
    }

    /// Copy the snapshot.
    pub fn copy(&self) -> (copy: PaneInfo)
        ensures
            copy@ == self@,
    {
        proof {
            use_type_invariant(self);
        }
        PaneInfo { record: self.record.copy() }
    }

    /// Render the snapshot without the bytes of its texts.
    pub fn debug_text(&self) -> (rendering: String)
        ensures
            rendering@ == record::record_rendering("PaneInfo"@, self@),
    {
        self.record.debug_text("PaneInfo")
    }

    /// Return the decoded `pane_id` value, the snapshot's identity.
    pub fn pane_id(&self) -> (value: &PaneId)
        ensures
            self@.at(CatalogField::PaneId) == Availability::Available(value::ScalarV::PaneId(value@)),
    {
        proof {
            use_type_invariant(self);
            reveal(CatalogField::place);
            reveal(CatalogField::decoded_by);
            reveal(CatalogField::since);
            reveal(CatalogField::when_empty);
            reveal(catalog::pane_field);
        }
        self.record.pane_id(0)
    }

    /// Return the decoded `alternate_saved_x` value.
    pub fn alternate_saved_x(&self) -> (value: &u32)
        ensures
            self@.at(CatalogField::AlternateSavedX) == Availability::Available(value::ScalarV::U32(*value)),
    {
        proof {
            use_type_invariant(self);
            reveal(CatalogField::place);
            reveal(CatalogField::decoded_by);
            reveal(CatalogField::since);
            reveal(CatalogField::when_empty);
            reveal(catalog::pane_field);
        }
        self.record.u32(1)
    }

    /// Return the decoded `alternate_saved_y` value.
    pub fn alternate_saved_y(&self) -> (value: &u32)
        ensures
            self@.at(CatalogField::AlternateSavedY) == Availability::Available(value::ScalarV::U32(*value)),
    {
        proof {
            use_type_invariant(self);
            reveal(CatalogField::place);
            reveal(CatalogField::decoded_by);
            reveal(CatalogField::since);
            reveal(CatalogField::when_empty);
            reveal(catalog::pane_field);
        }
        self.record.u32(2)
    }

    /// Return the evidence of the `bracket_paste_flag` value.
    pub fn bracket_paste_flag(&self) -> (found: Availability<&bool>)
        ensures
            self@.at(CatalogField::BracketPasteFlag) == match found {
                Availability::Unsupported => Availability::Unsupported,
                Availability::Unproven => Availability::Unproven,
                Availability::Absent => Availability::Absent,
                Availability::Available(value) => Availability::Available(
                    value::ScalarV::Bool(*value),
                ),
            },
    {
        proof {
            use_type_invariant(self);
            reveal(CatalogField::place);
            reveal(CatalogField::decoded_by);
            reveal(catalog::pane_field);
        }
        self.record.bool_evidence(3)
    }

    /// Return the evidence of the `cursor_character` value.
    pub fn cursor_character(&self) -> (found: Availability<&TmuxText>)
        ensures
            self@.at(CatalogField::CursorCharacter) == match found {
                Availability::Unsupported => Availability::Unsupported,
                Availability::Unproven => Availability::Unproven,
                Availability::Absent => Availability::Absent,
                Availability::Available(value) => Availability::Available(
                    value::ScalarV::Text(value@),
                ),
            },
    {
        proof {
            use_type_invariant(self);
            reveal(CatalogField::place);
            reveal(CatalogField::decoded_by);
            reveal(catalog::pane_field);
        }
        self.record.text_evidence(4)
    }

    /// Return the decoded `cursor_flag` value.
    pub fn cursor_flag(&self) -> (value: &bool)
        ensures
            self@.at(CatalogField::CursorFlag) == Availability::Available(value::ScalarV::Bool(*value)),
    {
        proof {
            use_type_invariant(self);
            reveal(CatalogField::place);
            reveal(CatalogField::decoded_by);
            reveal(CatalogField::since);
            reveal(CatalogField::when_empty);
            reveal(catalog::pane_field);
        }
        self.record.bool(5)
    }

    /// Return the decoded `cursor_x` value.
    pub fn cursor_x(&self) -> (value: &u32)
        ensures
            self@.at(CatalogField::CursorX) == Availability::Available(value::ScalarV::U32(*value)),
    {
        proof {
            use_type_invariant(self);
            reveal(CatalogField::place);
            reveal(CatalogField::decoded_by);
            reveal(CatalogField::since);
            reveal(CatalogField::when_empty);
            reveal(catalog::pane_field);
        }
        self.record.u32(6)
    }

    /// Return the decoded `cursor_y` value.
    pub fn cursor_y(&self) -> (value: &u32)
        ensures
            self@.at(CatalogField::CursorY) == Availability::Available(value::ScalarV::U32(*value)),
    {
        proof {
            use_type_invariant(self);
            reveal(CatalogField::place);
            reveal(CatalogField::decoded_by);
            reveal(CatalogField::since);
            reveal(CatalogField::when_empty);
            reveal(catalog::pane_field);
        }
        self.record.u32(7)
    }

    /// Return the decoded `history_bytes` value.
    pub fn history_bytes(&self) -> (value: &u64)
        ensures
            self@.at(CatalogField::HistoryBytes) == Availability::Available(value::ScalarV::U64(*value)),
    {
        proof {
            use_type_invariant(self);
            reveal(CatalogField::place);
            reveal(CatalogField::decoded_by);
            reveal(CatalogField::since);
            reveal(CatalogField::when_empty);
            reveal(catalog::pane_field);
        }
        self.record.u64(8)
    }

    /// Return the decoded `history_limit` value.
    pub fn history_limit(&self) -> (value: &u32)
        ensures
            self@.at(CatalogField::HistoryLimit) == Availability::Available(value::ScalarV::U32(*value)),
    {
        proof {
            use_type_invariant(self);
            reveal(CatalogField::place);
            reveal(CatalogField::decoded_by);
            reveal(CatalogField::since);
            reveal(CatalogField::when_empty);
            reveal(catalog::pane_field);
        }
        self.record.u32(9)
    }

    /// Return the decoded `history_size` value.
    pub fn history_size(&self) -> (value: &u32)
        ensures
            self@.at(CatalogField::HistorySize) == Availability::Available(value::ScalarV::U32(*value)),
    {
        proof {
            use_type_invariant(self);
            reveal(CatalogField::place);
            reveal(CatalogField::decoded_by);
            reveal(CatalogField::since);
            reveal(CatalogField::when_empty);
            reveal(catalog::pane_field);
        }
        self.record.u32(10)
    }

    /// Return the decoded `insert_flag` value.
    pub fn insert_flag(&self) -> (value: &bool)
        ensures
            self@.at(CatalogField::InsertFlag) == Availability::Available(value::ScalarV::Bool(*value)),
    {
        proof {
            use_type_invariant(self);
            reveal(CatalogField::place);
            reveal(CatalogField::decoded_by);
            reveal(CatalogField::since);
            reveal(CatalogField::when_empty);
            reveal(catalog::pane_field);
        }
        self.record.bool(11)
    }

    /// Return the decoded `keypad_cursor_flag` value.
    pub fn keypad_cursor_flag(&self) -> (value: &bool)
        ensures
            self@.at(CatalogField::KeypadCursorFlag) == Availability::Available(value::ScalarV::Bool(*value)),
    {
        proof {
            use_type_invariant(self);
            reveal(CatalogField::place);
            reveal(CatalogField::decoded_by);
            reveal(CatalogField::since);
            reveal(CatalogField::when_empty);
            reveal(catalog::pane_field);
        }
        self.record.bool(12)
    }

    /// Return the decoded `keypad_flag` value.
    pub fn keypad_flag(&self) -> (value: &bool)
        ensures
            self@.at(CatalogField::KeypadFlag) == Availability::Available(value::ScalarV::Bool(*value)),
    {
        proof {
            use_type_invariant(self);
            reveal(CatalogField::place);
            reveal(CatalogField::decoded_by);
            reveal(CatalogField::since);
            reveal(CatalogField::when_empty);
            reveal(catalog::pane_field);
        }
        self.record.bool(13)
    }

    /// Return the decoded `mouse_all_flag` value.
    pub fn mouse_all_flag(&self) -> (value: &bool)
        ensures
            self@.at(CatalogField::MouseAllFlag) == Availability::Available(value::ScalarV::Bool(*value)),
    {
        proof {
            use_type_invariant(self);
            reveal(CatalogField::place);
            reveal(CatalogField::decoded_by);
            reveal(CatalogField::since);
            reveal(CatalogField::when_empty);
            reveal(catalog::pane_field);
        }
        self.record.bool(14)
    }

    /// Return the decoded `mouse_any_flag` value.
    pub fn mouse_any_flag(&self) -> (value: &bool)
        ensures
            self@.at(CatalogField::MouseAnyFlag) == Availability::Available(value::ScalarV::Bool(*value)),
    {
        proof {
            use_type_invariant(self);
            reveal(CatalogField::place);
            reveal(CatalogField::decoded_by);
            reveal(CatalogField::since);
            reveal(CatalogField::when_empty);
            reveal(catalog::pane_field);
        }
        self.record.bool(15)
    }

    /// Return the decoded `mouse_button_flag` value.
    pub fn mouse_button_flag(&self) -> (value: &bool)
        ensures
            self@.at(CatalogField::MouseButtonFlag) == Availability::Available(value::ScalarV::Bool(*value)),
    {
        proof {
            use_type_invariant(self);
            reveal(CatalogField::place);
            reveal(CatalogField::decoded_by);
            reveal(CatalogField::since);
            reveal(CatalogField::when_empty);
            reveal(catalog::pane_field);
        }
        self.record.bool(16)
    }

    /// Return the decoded `mouse_sgr_flag` value.
    pub fn mouse_sgr_flag(&self) -> (value: &bool)
        ensures
            self@.at(CatalogField::MouseSgrFlag) == Availability::Available(value::ScalarV::Bool(*value)),
    {
        proof {
            use_type_invariant(self);
            reveal(CatalogField::place);
            reveal(CatalogField::decoded_by);
            reveal(CatalogField::since);
            reveal(CatalogField::when_empty);
            reveal(catalog::pane_field);
        }
        self.record.bool(17)
    }

    /// Return the decoded `mouse_standard_flag` value.
    pub fn mouse_standard_flag(&self) -> (value: &bool)
        ensures
            self@.at(CatalogField::MouseStandardFlag) == Availability::Available(value::ScalarV::Bool(*value)),
    {
        proof {
            use_type_invariant(self);
            reveal(CatalogField::place);
            reveal(CatalogField::decoded_by);
            reveal(CatalogField::since);
            reveal(CatalogField::when_empty);
            reveal(catalog::pane_field);
        }
        self.record.bool(18)
    }

    /// Return the decoded `origin_flag` value.
    pub fn origin_flag(&self) -> (value: &bool)
        ensures
            self@.at(CatalogField::OriginFlag) == Availability::Available(value::ScalarV::Bool(*value)),
    {
        proof {
            use_type_invariant(self);
            reveal(CatalogField::place);
            reveal(CatalogField::decoded_by);
            reveal(CatalogField::since);
            reveal(CatalogField::when_empty);
            reveal(catalog::pane_field);
        }
        self.record.bool(19)
    }

    /// Return the decoded `pane_active` value.
    pub fn pane_active(&self) -> (value: &bool)
        ensures
            self@.at(CatalogField::PaneActive) == Availability::Available(value::ScalarV::Bool(*value)),
    {
        proof {
            use_type_invariant(self);
            reveal(CatalogField::place);
            reveal(CatalogField::decoded_by);
            reveal(CatalogField::since);
            reveal(CatalogField::when_empty);
            reveal(catalog::pane_field);
        }
        self.record.bool(20)
    }

    /// Return the decoded `pane_at_bottom` value.
    pub fn pane_at_bottom(&self) -> (value: &bool)
        ensures
            self@.at(CatalogField::PaneAtBottom) == Availability::Available(value::ScalarV::Bool(*value)),
    {
        proof {
            use_type_invariant(self);
            reveal(CatalogField::place);
            reveal(CatalogField::decoded_by);
            reveal(CatalogField::since);
            reveal(CatalogField::when_empty);
            reveal(catalog::pane_field);
        }
        self.record.bool(21)
    }

    /// Return the decoded `pane_at_left` value.
    pub fn pane_at_left(&self) -> (value: &bool)
        ensures
            self@.at(CatalogField::PaneAtLeft) == Availability::Available(value::ScalarV::Bool(*value)),
    {
        proof {
            use_type_invariant(self);
            reveal(CatalogField::place);
            reveal(CatalogField::decoded_by);
            reveal(CatalogField::since);
            reveal(CatalogField::when_empty);
            reveal(catalog::pane_field);
        }
        self.record.bool(22)
    }

    /// Return the decoded `pane_at_right` value.
    pub fn pane_at_right(&self) -> (value: &bool)
        ensures
            self@.at(CatalogField::PaneAtRight) == Availability::Available(value::ScalarV::Bool(*value)),
    {
        proof {
            use_type_invariant(self);
            reveal(CatalogField::place);
            reveal(CatalogField::decoded_by);
            reveal(CatalogField::since);
            reveal(CatalogField::when_empty);
            reveal(catalog::pane_field);
        }
        self.record.bool(23)
    }

    /// Return the decoded `pane_at_top` value.
    pub fn pane_at_top(&self) -> (value: &bool)
        ensures
            self@.at(CatalogField::PaneAtTop) == Availability::Available(value::ScalarV::Bool(*value)),
    {
        proof {
            use_type_invariant(self);
            reveal(CatalogField::place);
            reveal(CatalogField::decoded_by);
            reveal(CatalogField::since);
            reveal(CatalogField::when_empty);
            reveal(catalog::pane_field);
        }
        self.record.bool(24)
    }

    /// Return the decoded `pane_bg` value.
    pub fn pane_bg(&self) -> (value: &TmuxText)
        ensures
            self@.at(CatalogField::PaneBg) == Availability::Available(value::ScalarV::Text(value@)),
    {
        proof {
            use_type_invariant(self);
            reveal(CatalogField::place);
            reveal(CatalogField::decoded_by);
            reveal(CatalogField::since);
            reveal(CatalogField::when_empty);
            reveal(catalog::pane_field);
        }
        self.record.text(25)
    }

    /// Return the decoded `pane_bottom` value.
    pub fn pane_bottom(&self) -> (value: &i32)
        ensures
            self@.at(CatalogField::PaneBottom) == Availability::Available(value::ScalarV::I32(*value)),
    {
        proof {
            use_type_invariant(self);
            reveal(CatalogField::place);
            reveal(CatalogField::decoded_by);
            reveal(CatalogField::since);
            reveal(CatalogField::when_empty);
            reveal(catalog::pane_field);
        }
        self.record.i32(26)
    }

    /// Return the evidence of the `pane_current_command` value.
    pub fn pane_current_command(&self) -> (found: Availability<&TmuxText>)
        ensures
            self@.at(CatalogField::PaneCurrentCommand) == match found {
                Availability::Unsupported => Availability::Unsupported,
                Availability::Unproven => Availability::Unproven,
                Availability::Absent => Availability::Absent,
                Availability::Available(value) => Availability::Available(
                    value::ScalarV::Text(value@),
                ),
            },
    {
        proof {
            use_type_invariant(self);
            reveal(CatalogField::place);
            reveal(CatalogField::decoded_by);
            reveal(catalog::pane_field);
        }
        self.record.text_evidence(27)
    }

    /// Return the evidence of the `pane_current_path` value.
    pub fn pane_current_path(&self) -> (found: Availability<&TmuxText>)
        ensures
            self@.at(CatalogField::PaneCurrentPath) == match found {
                Availability::Unsupported => Availability::Unsupported,
                Availability::Unproven => Availability::Unproven,
                Availability::Absent => Availability::Absent,
                Availability::Available(value) => Availability::Available(
                    value::ScalarV::Text(value@),
                ),
            },
    {
        proof {
            use_type_invariant(self);
            reveal(CatalogField::place);
            reveal(CatalogField::decoded_by);
            reveal(catalog::pane_field);
        }
        self.record.text_evidence(28)
    }

    /// Return the decoded `pane_dead` value.
    pub fn pane_dead(&self) -> (value: &bool)
        ensures
            self@.at(CatalogField::PaneDead) == Availability::Available(value::ScalarV::Bool(*value)),
    {
        proof {
            use_type_invariant(self);
            reveal(CatalogField::place);
            reveal(CatalogField::decoded_by);
            reveal(CatalogField::since);
            reveal(CatalogField::when_empty);
            reveal(catalog::pane_field);
        }
        self.record.bool(29)
    }

    /// Return the evidence of the `pane_dead_signal` value.
    pub fn pane_dead_signal(&self) -> (found: Availability<&TmuxText>)
        ensures
            self@.at(CatalogField::PaneDeadSignal) == match found {
                Availability::Unsupported => Availability::Unsupported,
                Availability::Unproven => Availability::Unproven,
                Availability::Absent => Availability::Absent,
                Availability::Available(value) => Availability::Available(
                    value::ScalarV::Text(value@),
                ),
            },
    {
        proof {
            use_type_invariant(self);
            reveal(CatalogField::place);
            reveal(CatalogField::decoded_by);
            reveal(catalog::pane_field);
        }
        self.record.text_evidence(30)
    }

    /// Return the evidence of the `pane_dead_status` value.
    pub fn pane_dead_status(&self) -> (found: Availability<&u8>)
        ensures
            self@.at(CatalogField::PaneDeadStatus) == match found {
                Availability::Unsupported => Availability::Unsupported,
                Availability::Unproven => Availability::Unproven,
                Availability::Absent => Availability::Absent,
                Availability::Available(value) => Availability::Available(
                    value::ScalarV::U8(*value),
                ),
            },
    {
        proof {
            use_type_invariant(self);
            reveal(CatalogField::place);
            reveal(CatalogField::decoded_by);
            reveal(catalog::pane_field);
        }
        self.record.u8_evidence(31)
    }

    /// Return the evidence of the `pane_dead_time` value.
    pub fn pane_dead_time(&self) -> (found: Availability<&i64>)
        ensures
            self@.at(CatalogField::PaneDeadTime) == match found {
                Availability::Unsupported => Availability::Unsupported,
                Availability::Unproven => Availability::Unproven,
                Availability::Absent => Availability::Absent,
                Availability::Available(value) => Availability::Available(
                    value::ScalarV::Timestamp(*value),
                ),
            },
    {
        proof {
            use_type_invariant(self);
            reveal(CatalogField::place);
            reveal(CatalogField::decoded_by);
            reveal(catalog::pane_field);
        }
        self.record.timestamp_evidence(32)
    }

    /// Return the decoded `pane_fg` value.
    pub fn pane_fg(&self) -> (value: &TmuxText)
        ensures
            self@.at(CatalogField::PaneFg) == Availability::Available(value::ScalarV::Text(value@)),
    {
        proof {
            use_type_invariant(self);
            reveal(CatalogField::place);
            reveal(CatalogField::decoded_by);
            reveal(CatalogField::since);
            reveal(CatalogField::when_empty);
            reveal(catalog::pane_field);
        }
        self.record.text(33)
    }

    /// Return the evidence of the `pane_flags` value.
    pub fn pane_flags(&self) -> (found: Availability<&TmuxText>)
        ensures
            self@.at(CatalogField::PaneFlags) == match found {
                Availability::Unsupported => Availability::Unsupported,
                Availability::Unproven => Availability::Unproven,
                Availability::Absent => Availability::Absent,
                Availability::Available(value) => Availability::Available(
                    value::ScalarV::Text(value@),
                ),
            },
    {
        proof {
            use_type_invariant(self);
            reveal(CatalogField::place);
            reveal(CatalogField::decoded_by);
            reveal(catalog::pane_field);
        }
        self.record.text_evidence(34)
    }

    /// Return the evidence of the `pane_floating_flag` value.
    pub fn pane_floating_flag(&self) -> (found: Availability<&bool>)
        ensures
            self@.at(CatalogField::PaneFloatingFlag) == match found {
                Availability::Unsupported => Availability::Unsupported,
                Availability::Unproven => Availability::Unproven,
                Availability::Absent => Availability::Absent,
                Availability::Available(value) => Availability::Available(
                    value::ScalarV::Bool(*value),
                ),
            },
    {
        proof {
            use_type_invariant(self);
            reveal(CatalogField::place);
            reveal(CatalogField::decoded_by);
            reveal(catalog::pane_field);
        }
        self.record.bool_evidence(35)
    }

    /// Return the decoded `pane_height` value.
    pub fn pane_height(&self) -> (value: &u32)
        ensures
            self@.at(CatalogField::PaneHeight) == Availability::Available(value::ScalarV::U32(*value)),
    {
        proof {
            use_type_invariant(self);
            reveal(CatalogField::place);
            reveal(CatalogField::decoded_by);
            reveal(CatalogField::since);
            reveal(CatalogField::when_empty);
            reveal(catalog::pane_field);
        }
        self.record.u32(36)
    }

    /// Return the decoded `pane_in_mode` value.
    pub fn pane_in_mode(&self) -> (value: &u32)
        ensures
            self@.at(CatalogField::PaneInMode) == Availability::Available(value::ScalarV::U32(*value)),
    {
        proof {
            use_type_invariant(self);
            reveal(CatalogField::place);
            reveal(CatalogField::decoded_by);
            reveal(CatalogField::since);
            reveal(CatalogField::when_empty);
            reveal(catalog::pane_field);
        }
        self.record.u32(37)
    }

    /// Return the decoded `pane_index` value.
    pub fn pane_index(&self) -> (value: &u32)
        ensures
            self@.at(CatalogField::PaneIndex) == Availability::Available(value::ScalarV::U32(*value)),
    {
        proof {
            use_type_invariant(self);
            reveal(CatalogField::place);
            reveal(CatalogField::decoded_by);
            reveal(CatalogField::since);
            reveal(CatalogField::when_empty);
            reveal(catalog::pane_field);
        }
        self.record.u32(38)
    }

    /// Return the decoded `pane_input_off` value.
    pub fn pane_input_off(&self) -> (value: &bool)
        ensures
            self@.at(CatalogField::PaneInputOff) == Availability::Available(value::ScalarV::Bool(*value)),
    {
        proof {
            use_type_invariant(self);
            reveal(CatalogField::place);
            reveal(CatalogField::decoded_by);
            reveal(CatalogField::since);
            reveal(CatalogField::when_empty);
            reveal(catalog::pane_field);
        }
        self.record.bool(39)
    }

    /// Return the decoded `pane_last` value.
    pub fn pane_last(&self) -> (value: &bool)
        ensures
            self@.at(CatalogField::PaneLast) == Availability::Available(value::ScalarV::Bool(*value)),
    {
        proof {
            use_type_invariant(self);
            reveal(CatalogField::place);
            reveal(CatalogField::decoded_by);
            reveal(CatalogField::since);
            reveal(CatalogField::when_empty);
            reveal(catalog::pane_field);
        }
        self.record.bool(40)
    }

    /// Return the decoded `pane_left` value.
    pub fn pane_left(&self) -> (value: &i32)
        ensures
            self@.at(CatalogField::PaneLeft) == Availability::Available(value::ScalarV::I32(*value)),
    {
        proof {
            use_type_invariant(self);
            reveal(CatalogField::place);
            reveal(CatalogField::decoded_by);
            reveal(CatalogField::since);
            reveal(CatalogField::when_empty);
            reveal(catalog::pane_field);
        }
        self.record.i32(41)
    }

    /// Return the decoded `pane_marked` value.
    pub fn pane_marked(&self) -> (value: &bool)
        ensures
            self@.at(CatalogField::PaneMarked) == Availability::Available(value::ScalarV::Bool(*value)),
    {
        proof {
            use_type_invariant(self);
            reveal(CatalogField::place);
            reveal(CatalogField::decoded_by);
            reveal(CatalogField::since);
            reveal(CatalogField::when_empty);
            reveal(catalog::pane_field);
        }
        self.record.bool(42)
    }

    /// Return the evidence of the `pane_mode` value.
    pub fn pane_mode(&self) -> (found: Availability<&TmuxText>)
        ensures
            self@.at(CatalogField::PaneMode) == match found {
                Availability::Unsupported => Availability::Unsupported,
                Availability::Unproven => Availability::Unproven,
                Availability::Absent => Availability::Absent,
                Availability::Available(value) => Availability::Available(
                    value::ScalarV::Text(value@),
                ),
            },
    {
        proof {
            use_type_invariant(self);
            reveal(CatalogField::place);
            reveal(CatalogField::decoded_by);
            reveal(catalog::pane_field);
        }
        self.record.text_evidence(43)
    }

    /// Return the decoded `pane_path` value.
    pub fn pane_path(&self) -> (value: &TmuxText)
        ensures
            self@.at(CatalogField::PanePath) == Availability::Available(value::ScalarV::Text(value@)),
    {
        proof {
            use_type_invariant(self);
            reveal(CatalogField::place);
            reveal(CatalogField::decoded_by);
            reveal(CatalogField::since);
            reveal(CatalogField::when_empty);
            reveal(catalog::pane_field);
        }
        self.record.text(44)
    }

    /// Return the evidence of the `pane_pb_progress` value.
    pub fn pane_pb_progress(&self) -> (found: Availability<&u8>)
        ensures
            self@.at(CatalogField::PanePbProgress) == match found {
                Availability::Unsupported => Availability::Unsupported,
                Availability::Unproven => Availability::Unproven,
                Availability::Absent => Availability::Absent,
                Availability::Available(value) => Availability::Available(
                    value::ScalarV::PaneProgress(*value),
                ),
            },
    {
        proof {
            use_type_invariant(self);
            reveal(CatalogField::place);
            reveal(CatalogField::decoded_by);
            reveal(catalog::pane_field);
        }
        self.record.pane_progress_evidence(45)
    }

    /// Return the evidence of the `pane_pb_state` value.
    pub fn pane_pb_state(&self) -> (found: Availability<&PaneProgressState>)
        ensures
            self@.at(CatalogField::PanePbState) == match found {
                Availability::Unsupported => Availability::Unsupported,
                Availability::Unproven => Availability::Unproven,
                Availability::Absent => Availability::Absent,
                Availability::Available(value) => Availability::Available(
                    value::ScalarV::PaneProgressState(*value),
                ),
            },
    {
        proof {
            use_type_invariant(self);
            reveal(CatalogField::place);
            reveal(CatalogField::decoded_by);
            reveal(catalog::pane_field);
        }
        self.record.pane_progress_state_evidence(46)
    }

    /// Return the decoded `pane_pid` value.
    pub fn pane_pid(&self) -> (value: &u32)
        ensures
            self@.at(CatalogField::PanePid) == Availability::Available(value::ScalarV::U32(*value)),
    {
        proof {
            use_type_invariant(self);
            reveal(CatalogField::place);
            reveal(CatalogField::decoded_by);
            reveal(CatalogField::since);
            reveal(CatalogField::when_empty);
            reveal(catalog::pane_field);
        }
        self.record.u32(47)
    }

    /// Return the decoded `pane_pipe` value.
    pub fn pane_pipe(&self) -> (value: &bool)
        ensures
            self@.at(CatalogField::PanePipe) == Availability::Available(value::ScalarV::Bool(*value)),
    {
        proof {
            use_type_invariant(self);
            reveal(CatalogField::place);
            reveal(CatalogField::decoded_by);
            reveal(CatalogField::since);
            reveal(CatalogField::when_empty);
            reveal(catalog::pane_field);
        }
        self.record.bool(48)
    }

    /// Return the evidence of the `pane_pipe_pid` value.
    pub fn pane_pipe_pid(&self) -> (found: Availability<&u32>)
        ensures
            self@.at(CatalogField::PanePipePid) == match found {
                Availability::Unsupported => Availability::Unsupported,
                Availability::Unproven => Availability::Unproven,
                Availability::Absent => Availability::Absent,
                Availability::Available(value) => Availability::Available(
                    value::ScalarV::U32(*value),
                ),
            },
    {
        proof {
            use_type_invariant(self);
            reveal(CatalogField::place);
            reveal(CatalogField::decoded_by);
            reveal(catalog::pane_field);
        }
        self.record.u32_evidence(49)
    }

    /// Return the decoded `pane_right` value.
    pub fn pane_right(&self) -> (value: &i32)
        ensures
            self@.at(CatalogField::PaneRight) == Availability::Available(value::ScalarV::I32(*value)),
    {
        proof {
            use_type_invariant(self);
            reveal(CatalogField::place);
            reveal(CatalogField::decoded_by);
            reveal(CatalogField::since);
            reveal(CatalogField::when_empty);
            reveal(catalog::pane_field);
        }
        self.record.i32(50)
    }

    /// Return the decoded `pane_search_string` value.
    pub fn pane_search_string(&self) -> (value: &TmuxText)
        ensures
            self@.at(CatalogField::PaneSearchString) == Availability::Available(value::ScalarV::Text(value@)),
    {
        proof {
            use_type_invariant(self);
            reveal(CatalogField::place);
            reveal(CatalogField::decoded_by);
            reveal(CatalogField::since);
            reveal(CatalogField::when_empty);
            reveal(catalog::pane_field);
        }
        self.record.text(51)
    }

    /// Return the decoded `pane_start_command` value.
    pub fn pane_start_command(&self) -> (value: &TmuxText)
        ensures
            self@.at(CatalogField::PaneStartCommand) == Availability::Available(value::ScalarV::Text(value@)),
    {
        proof {
            use_type_invariant(self);
            reveal(CatalogField::place);
            reveal(CatalogField::decoded_by);
            reveal(CatalogField::since);
            reveal(CatalogField::when_empty);
            reveal(catalog::pane_field);
        }
        self.record.text(52)
    }

    /// Return the evidence of the `pane_start_path` value.
    pub fn pane_start_path(&self) -> (found: Availability<&TmuxText>)
        ensures
            self@.at(CatalogField::PaneStartPath) == match found {
                Availability::Unsupported => Availability::Unsupported,
                Availability::Unproven => Availability::Unproven,
                Availability::Absent => Availability::Absent,
                Availability::Available(value) => Availability::Available(
                    value::ScalarV::Text(value@),
                ),
            },
    {
        proof {
            use_type_invariant(self);
            reveal(CatalogField::place);
            reveal(CatalogField::decoded_by);
            reveal(catalog::pane_field);
        }
        self.record.text_evidence(53)
    }

    /// Return the decoded `pane_synchronized` value.
    pub fn pane_synchronized(&self) -> (value: &bool)
        ensures
            self@.at(CatalogField::PaneSynchronized) == Availability::Available(value::ScalarV::Bool(*value)),
    {
        proof {
            use_type_invariant(self);
            reveal(CatalogField::place);
            reveal(CatalogField::decoded_by);
            reveal(CatalogField::since);
            reveal(CatalogField::when_empty);
            reveal(catalog::pane_field);
        }
        self.record.bool(54)
    }

    /// Return the decoded `pane_tabs` value.
    pub fn pane_tabs(&self) -> (value: &TmuxText)
        ensures
            self@.at(CatalogField::PaneTabs) == Availability::Available(value::ScalarV::Text(value@)),
    {
        proof {
            use_type_invariant(self);
            reveal(CatalogField::place);
            reveal(CatalogField::decoded_by);
            reveal(CatalogField::since);
            reveal(CatalogField::when_empty);
            reveal(catalog::pane_field);
        }
        self.record.text(55)
    }

    /// Return the decoded `pane_title` value.
    pub fn pane_title(&self) -> (value: &TmuxText)
        ensures
            self@.at(CatalogField::PaneTitle) == Availability::Available(value::ScalarV::Text(value@)),
    {
        proof {
            use_type_invariant(self);
            reveal(CatalogField::place);
            reveal(CatalogField::decoded_by);
            reveal(CatalogField::since);
            reveal(CatalogField::when_empty);
            reveal(catalog::pane_field);
        }
        self.record.text(56)
    }

    /// Return the decoded `pane_top` value.
    pub fn pane_top(&self) -> (value: &i32)
        ensures
            self@.at(CatalogField::PaneTop) == Availability::Available(value::ScalarV::I32(*value)),
    {
        proof {
            use_type_invariant(self);
            reveal(CatalogField::place);
            reveal(CatalogField::decoded_by);
            reveal(CatalogField::since);
            reveal(CatalogField::when_empty);
            reveal(catalog::pane_field);
        }
        self.record.i32(57)
    }

    /// Return the decoded `pane_tty` value.
    pub fn pane_tty(&self) -> (value: &TmuxText)
        ensures
            self@.at(CatalogField::PaneTty) == Availability::Available(value::ScalarV::Text(value@)),
    {
        proof {
            use_type_invariant(self);
            reveal(CatalogField::place);
            reveal(CatalogField::decoded_by);
            reveal(CatalogField::since);
            reveal(CatalogField::when_empty);
            reveal(catalog::pane_field);
        }
        self.record.text(58)
    }

    /// Return the evidence of the `pane_unseen_changes` value.
    pub fn pane_unseen_changes(&self) -> (found: Availability<&bool>)
        ensures
            self@.at(CatalogField::PaneUnseenChanges) == match found {
                Availability::Unsupported => Availability::Unsupported,
                Availability::Unproven => Availability::Unproven,
                Availability::Absent => Availability::Absent,
                Availability::Available(value) => Availability::Available(
                    value::ScalarV::Bool(*value),
                ),
            },
    {
        proof {
            use_type_invariant(self);
            reveal(CatalogField::place);
            reveal(CatalogField::decoded_by);
            reveal(catalog::pane_field);
        }
        self.record.bool_evidence(59)
    }

    /// Return the decoded `pane_width` value.
    pub fn pane_width(&self) -> (value: &u32)
        ensures
            self@.at(CatalogField::PaneWidth) == Availability::Available(value::ScalarV::U32(*value)),
    {
        proof {
            use_type_invariant(self);
            reveal(CatalogField::place);
            reveal(CatalogField::decoded_by);
            reveal(CatalogField::since);
            reveal(CatalogField::when_empty);
            reveal(catalog::pane_field);
        }
        self.record.u32(60)
    }

    /// Return the evidence of the `pane_x` value.
    pub fn pane_x(&self) -> (found: Availability<&i32>)
        ensures
            self@.at(CatalogField::PaneX) == match found {
                Availability::Unsupported => Availability::Unsupported,
                Availability::Unproven => Availability::Unproven,
                Availability::Absent => Availability::Absent,
                Availability::Available(value) => Availability::Available(
                    value::ScalarV::I32(*value),
                ),
            },
    {
        proof {
            use_type_invariant(self);
            reveal(CatalogField::place);
            reveal(CatalogField::decoded_by);
            reveal(catalog::pane_field);
        }
        self.record.i32_evidence(61)
    }

    /// Return the evidence of the `pane_y` value.
    pub fn pane_y(&self) -> (found: Availability<&i32>)
        ensures
            self@.at(CatalogField::PaneY) == match found {
                Availability::Unsupported => Availability::Unsupported,
                Availability::Unproven => Availability::Unproven,
                Availability::Absent => Availability::Absent,
                Availability::Available(value) => Availability::Available(
                    value::ScalarV::I32(*value),
                ),
            },
    {
        proof {
            use_type_invariant(self);
            reveal(CatalogField::place);
            reveal(CatalogField::decoded_by);
            reveal(catalog::pane_field);
        }
        self.record.i32_evidence(62)
    }

    /// Return the evidence of the `pane_z` value.
    pub fn pane_z(&self) -> (found: Availability<&u32>)
        ensures
            self@.at(CatalogField::PaneZ) == match found {
                Availability::Unsupported => Availability::Unsupported,
                Availability::Unproven => Availability::Unproven,
                Availability::Absent => Availability::Absent,
                Availability::Available(value) => Availability::Available(
                    value::ScalarV::U32(*value),
                ),
            },
    {
        proof {
            use_type_invariant(self);
            reveal(CatalogField::place);
            reveal(CatalogField::decoded_by);
            reveal(catalog::pane_field);
        }
        self.record.u32_evidence(63)
    }

    /// Return the evidence of the `pane_zoomed_flag` value.
    pub fn pane_zoomed_flag(&self) -> (found: Availability<&bool>)
        ensures
            self@.at(CatalogField::PaneZoomedFlag) == match found {
                Availability::Unsupported => Availability::Unsupported,
                Availability::Unproven => Availability::Unproven,
                Availability::Absent => Availability::Absent,
                Availability::Available(value) => Availability::Available(
                    value::ScalarV::Bool(*value),
                ),
            },
    {
        proof {
            use_type_invariant(self);
            reveal(CatalogField::place);
            reveal(CatalogField::decoded_by);
            reveal(catalog::pane_field);
        }
        self.record.bool_evidence(64)
    }

    /// Return the decoded `scroll_region_lower` value.
    pub fn scroll_region_lower(&self) -> (value: &u32)
        ensures
            self@.at(CatalogField::ScrollRegionLower) == Availability::Available(value::ScalarV::U32(*value)),
    {
        proof {
            use_type_invariant(self);
            reveal(CatalogField::place);
            reveal(CatalogField::decoded_by);
            reveal(CatalogField::since);
            reveal(CatalogField::when_empty);
            reveal(catalog::pane_field);
        }
        self.record.u32(65)
    }

    /// Return the decoded `scroll_region_upper` value.
    pub fn scroll_region_upper(&self) -> (value: &u32)
        ensures
            self@.at(CatalogField::ScrollRegionUpper) == Availability::Available(value::ScalarV::U32(*value)),
    {
        proof {
            use_type_invariant(self);
            reveal(CatalogField::place);
            reveal(CatalogField::decoded_by);
            reveal(CatalogField::since);
            reveal(CatalogField::when_empty);
            reveal(catalog::pane_field);
        }
        self.record.u32(66)
    }

    /// Return the evidence of the `synchronized_output_flag` value.
    pub fn synchronized_output_flag(&self) -> (found: Availability<&bool>)
        ensures
            self@.at(CatalogField::SynchronizedOutputFlag) == match found {
                Availability::Unsupported => Availability::Unsupported,
                Availability::Unproven => Availability::Unproven,
                Availability::Absent => Availability::Absent,
                Availability::Available(value) => Availability::Available(
                    value::ScalarV::Bool(*value),
                ),
            },
    {
        proof {
            use_type_invariant(self);
            reveal(CatalogField::place);
            reveal(CatalogField::decoded_by);
            reveal(catalog::pane_field);
        }
        self.record.bool_evidence(67)
    }

    /// Return the decoded `wrap_flag` value.
    pub fn wrap_flag(&self) -> (value: &bool)
        ensures
            self@.at(CatalogField::WrapFlag) == Availability::Available(value::ScalarV::Bool(*value)),
    {
        proof {
            use_type_invariant(self);
            reveal(CatalogField::place);
            reveal(CatalogField::decoded_by);
            reveal(CatalogField::since);
            reveal(CatalogField::when_empty);
            reveal(catalog::pane_field);
        }
        self.record.bool(68)
    }

    /// Read a pane from a row, and leave the walk behind its fields.
    ///
    /// # Errors
    ///
    /// The first field that does not belong to the plan or does not decode.
    pub fn decode(walk: &mut RowHydrator<'_, '_>) -> (read: Result<PaneInfo, FormatCodecError>)
        requires
            old(walk).inside(),
        ensures
            match record::hydrated(old(walk)@, InfoPlacement::PaneInfo) {
                Ok((record, behind)) => read is Ok && read->Ok_0@ == record && final(walk)@
                    == behind && final(walk).inside(),
                Err(failure) => read is Err && read->Err_0@ == failure,
            },
    {
        match Record::decode(walk, InfoPlacement::PaneInfo) {
            Ok(record) => Ok(PaneInfo { record }),
            Err(failure) => Err(failure),
        }
    }
}

impl Clone for PaneInfo {
    fn clone(&self) -> (copy: Self)
        ensures
            copy@ == self@,
    {
        self.copy()
    }
}

impl PartialEq for PaneInfo {
    fn eq(&self, other: &Self) -> (same: bool) {
        self.record.same(&other.record)
    }
}

impl vstd::std_specs::cmp::PartialEqSpecImpl for PaneInfo {
    open spec fn obeys_eq_spec() -> bool {
        true
    }

    open spec fn eq_spec(&self, other: &Self) -> bool {
        self@ == other@
    }
}

impl Eq for PaneInfo {

}

/// Read the snapshot of a pane from a row.
///
/// # Errors
///
/// [`FormatCodecErrorKind::PlanRowMismatch`](crate::formats::error::FormatCodecErrorKind)
/// for a plan that was not made for snapshots of panes, the first field that
/// does not belong to the plan or does not decode, and a field that is left.
pub fn hydrate_pane_info(plan: &FormatPlan, row: &ParsedRow) -> (read: Result<
    PaneInfo,
    FormatCodecError,
>)
    ensures
        info_view(read) == record::snapshot_of(plan@, row@, InfoPlacement::PaneInfo),
{
    match Record::hydrate(plan, row, InfoPlacement::PaneInfo) {
        Ok(record) => Ok(PaneInfo { record }),
        Err(failure) => Err(failure),
    }
}

/// Typed filter field handles for a `pane`.
///
/// The type parameter names what an expression built from these handles
/// matches. Every field is named after the tmux format it reads.
pub struct PaneFields<Target> {
    /// The `pane_id` field.
    pub pane_id: TextField<Target>,
    /// The `alternate_saved_x` field.
    pub alternate_saved_x: IntegerField<Target, u32>,
    /// The `alternate_saved_y` field.
    pub alternate_saved_y: IntegerField<Target, u32>,
    /// The `bracket_paste_flag` field.
    pub bracket_paste_flag: BoolField<Target>,
    /// The `cursor_character` field.
    pub cursor_character: TextField<Target>,
    /// The `cursor_flag` field.
    pub cursor_flag: BoolField<Target>,
    /// The `cursor_x` field.
    pub cursor_x: IntegerField<Target, u32>,
    /// The `cursor_y` field.
    pub cursor_y: IntegerField<Target, u32>,
    /// The `history_bytes` field.
    pub history_bytes: IntegerField<Target, u64>,
    /// The `history_limit` field.
    pub history_limit: IntegerField<Target, u32>,
    /// The `history_size` field.
    pub history_size: IntegerField<Target, u32>,
    /// The `insert_flag` field.
    pub insert_flag: BoolField<Target>,
    /// The `keypad_cursor_flag` field.
    pub keypad_cursor_flag: BoolField<Target>,
    /// The `keypad_flag` field.
    pub keypad_flag: BoolField<Target>,
    /// The `mouse_all_flag` field.
    pub mouse_all_flag: BoolField<Target>,
    /// The `mouse_any_flag` field.
    pub mouse_any_flag: BoolField<Target>,
    /// The `mouse_button_flag` field.
    pub mouse_button_flag: BoolField<Target>,
    /// The `mouse_sgr_flag` field.
    pub mouse_sgr_flag: BoolField<Target>,
    /// The `mouse_standard_flag` field.
    pub mouse_standard_flag: BoolField<Target>,
    /// The `origin_flag` field.
    pub origin_flag: BoolField<Target>,
    /// The `pane_active` field.
    pub pane_active: BoolField<Target>,
    /// The `pane_at_bottom` field.
    pub pane_at_bottom: BoolField<Target>,
    /// The `pane_at_left` field.
    pub pane_at_left: BoolField<Target>,
    /// The `pane_at_right` field.
    pub pane_at_right: BoolField<Target>,
    /// The `pane_at_top` field.
    pub pane_at_top: BoolField<Target>,
    /// The `pane_bg` field.
    pub pane_bg: TextField<Target>,
    /// The `pane_bottom` field.
    pub pane_bottom: IntegerField<Target, i32>,
    /// The `pane_current_command` field.
    pub pane_current_command: TextField<Target>,
    /// The `pane_current_path` field.
    pub pane_current_path: TextField<Target>,
    /// The `pane_dead` field.
    pub pane_dead: BoolField<Target>,
    /// The `pane_dead_signal` field.
    pub pane_dead_signal: TextField<Target>,
    /// The `pane_dead_status` field.
    pub pane_dead_status: IntegerField<Target, u8>,
    /// The `pane_dead_time` field.
    pub pane_dead_time: IntegerField<Target, i64>,
    /// The `pane_fg` field.
    pub pane_fg: TextField<Target>,
    /// The `pane_flags` field.
    pub pane_flags: TextField<Target>,
    /// The `pane_floating_flag` field.
    pub pane_floating_flag: BoolField<Target>,
    /// The `pane_height` field.
    pub pane_height: IntegerField<Target, u32>,
    /// The `pane_in_mode` field.
    pub pane_in_mode: IntegerField<Target, u32>,
    /// The `pane_index` field.
    pub pane_index: IntegerField<Target, u32>,
    /// The `pane_input_off` field.
    pub pane_input_off: BoolField<Target>,
    /// The `pane_last` field.
    pub pane_last: BoolField<Target>,
    /// The `pane_left` field.
    pub pane_left: IntegerField<Target, i32>,
    /// The `pane_marked` field.
    pub pane_marked: BoolField<Target>,
    /// The `pane_mode` field.
    pub pane_mode: TextField<Target>,
    /// The `pane_path` field.
    pub pane_path: TextField<Target>,
    /// The `pane_pb_progress` field.
    pub pane_pb_progress: IntegerField<Target, u8>,
    /// The `pane_pb_state` field.
    pub pane_pb_state: EnumField<Target, PaneProgressState>,
    /// The `pane_pid` field.
    pub pane_pid: IntegerField<Target, u32>,
    /// The `pane_pipe` field.
    pub pane_pipe: BoolField<Target>,
    /// The `pane_pipe_pid` field.
    pub pane_pipe_pid: IntegerField<Target, u32>,
    /// The `pane_right` field.
    pub pane_right: IntegerField<Target, i32>,
    /// The `pane_search_string` field.
    pub pane_search_string: TextField<Target>,
    /// The `pane_start_command` field.
    pub pane_start_command: TextField<Target>,
    /// The `pane_start_path` field.
    pub pane_start_path: TextField<Target>,
    /// The `pane_synchronized` field.
    pub pane_synchronized: BoolField<Target>,
    /// The `pane_tabs` field.
    pub pane_tabs: TextField<Target>,
    /// The `pane_title` field.
    pub pane_title: TextField<Target>,
    /// The `pane_top` field.
    pub pane_top: IntegerField<Target, i32>,
    /// The `pane_tty` field.
    pub pane_tty: TextField<Target>,
    /// The `pane_unseen_changes` field.
    pub pane_unseen_changes: BoolField<Target>,
    /// The `pane_width` field.
    pub pane_width: IntegerField<Target, u32>,
    /// The `pane_x` field.
    pub pane_x: IntegerField<Target, i32>,
    /// The `pane_y` field.
    pub pane_y: IntegerField<Target, i32>,
    /// The `pane_z` field.
    pub pane_z: IntegerField<Target, u32>,
    /// The `pane_zoomed_flag` field.
    pub pane_zoomed_flag: BoolField<Target>,
    /// The `scroll_region_lower` field.
    pub scroll_region_lower: IntegerField<Target, u32>,
    /// The `scroll_region_upper` field.
    pub scroll_region_upper: IntegerField<Target, u32>,
    /// The `synchronized_output_flag` field.
    pub synchronized_output_flag: BoolField<Target>,
    /// The `wrap_flag` field.
    pub wrap_flag: BoolField<Target>,
}

impl<Target> PaneFields<Target> {
    /// Whether each handle names its field of a target.
    pub open spec fn are_of(&self, target: Seq<char>) -> bool {
        &&& self.pane_id.id().names(target, "pane_id"@)
        &&& self.alternate_saved_x.id().names(target, "alternate_saved_x"@)
        &&& self.alternate_saved_y.id().names(target, "alternate_saved_y"@)
        &&& self.bracket_paste_flag.id().names(target, "bracket_paste_flag"@)
        &&& self.cursor_character.id().names(target, "cursor_character"@)
        &&& self.cursor_flag.id().names(target, "cursor_flag"@)
        &&& self.cursor_x.id().names(target, "cursor_x"@)
        &&& self.cursor_y.id().names(target, "cursor_y"@)
        &&& self.history_bytes.id().names(target, "history_bytes"@)
        &&& self.history_limit.id().names(target, "history_limit"@)
        &&& self.history_size.id().names(target, "history_size"@)
        &&& self.insert_flag.id().names(target, "insert_flag"@)
        &&& self.keypad_cursor_flag.id().names(target, "keypad_cursor_flag"@)
        &&& self.keypad_flag.id().names(target, "keypad_flag"@)
        &&& self.mouse_all_flag.id().names(target, "mouse_all_flag"@)
        &&& self.mouse_any_flag.id().names(target, "mouse_any_flag"@)
        &&& self.mouse_button_flag.id().names(target, "mouse_button_flag"@)
        &&& self.mouse_sgr_flag.id().names(target, "mouse_sgr_flag"@)
        &&& self.mouse_standard_flag.id().names(target, "mouse_standard_flag"@)
        &&& self.origin_flag.id().names(target, "origin_flag"@)
        &&& self.pane_active.id().names(target, "pane_active"@)
        &&& self.pane_at_bottom.id().names(target, "pane_at_bottom"@)
        &&& self.pane_at_left.id().names(target, "pane_at_left"@)
        &&& self.pane_at_right.id().names(target, "pane_at_right"@)
        &&& self.pane_at_top.id().names(target, "pane_at_top"@)
        &&& self.pane_bg.id().names(target, "pane_bg"@)
        &&& self.pane_bottom.id().names(target, "pane_bottom"@)
        &&& self.pane_current_command.id().names(target, "pane_current_command"@)
        &&& self.pane_current_path.id().names(target, "pane_current_path"@)
        &&& self.pane_dead.id().names(target, "pane_dead"@)
        &&& self.pane_dead_signal.id().names(target, "pane_dead_signal"@)
        &&& self.pane_dead_status.id().names(target, "pane_dead_status"@)
        &&& self.pane_dead_time.id().names(target, "pane_dead_time"@)
        &&& self.pane_fg.id().names(target, "pane_fg"@)
        &&& self.pane_flags.id().names(target, "pane_flags"@)
        &&& self.pane_floating_flag.id().names(target, "pane_floating_flag"@)
        &&& self.pane_height.id().names(target, "pane_height"@)
        &&& self.pane_in_mode.id().names(target, "pane_in_mode"@)
        &&& self.pane_index.id().names(target, "pane_index"@)
        &&& self.pane_input_off.id().names(target, "pane_input_off"@)
        &&& self.pane_last.id().names(target, "pane_last"@)
        &&& self.pane_left.id().names(target, "pane_left"@)
        &&& self.pane_marked.id().names(target, "pane_marked"@)
        &&& self.pane_mode.id().names(target, "pane_mode"@)
        &&& self.pane_path.id().names(target, "pane_path"@)
        &&& self.pane_pb_progress.id().names(target, "pane_pb_progress"@)
        &&& self.pane_pb_state.id().names(target, "pane_pb_state"@)
        &&& self.pane_pid.id().names(target, "pane_pid"@)
        &&& self.pane_pipe.id().names(target, "pane_pipe"@)
        &&& self.pane_pipe_pid.id().names(target, "pane_pipe_pid"@)
        &&& self.pane_right.id().names(target, "pane_right"@)
        &&& self.pane_search_string.id().names(target, "pane_search_string"@)
        &&& self.pane_start_command.id().names(target, "pane_start_command"@)
        &&& self.pane_start_path.id().names(target, "pane_start_path"@)
        &&& self.pane_synchronized.id().names(target, "pane_synchronized"@)
        &&& self.pane_tabs.id().names(target, "pane_tabs"@)
        &&& self.pane_title.id().names(target, "pane_title"@)
        &&& self.pane_top.id().names(target, "pane_top"@)
        &&& self.pane_tty.id().names(target, "pane_tty"@)
        &&& self.pane_unseen_changes.id().names(target, "pane_unseen_changes"@)
        &&& self.pane_width.id().names(target, "pane_width"@)
        &&& self.pane_x.id().names(target, "pane_x"@)
        &&& self.pane_y.id().names(target, "pane_y"@)
        &&& self.pane_z.id().names(target, "pane_z"@)
        &&& self.pane_zoomed_flag.id().names(target, "pane_zoomed_flag"@)
        &&& self.scroll_region_lower.id().names(target, "scroll_region_lower"@)
        &&& self.scroll_region_upper.id().names(target, "scroll_region_upper"@)
        &&& self.synchronized_output_flag.id().names(target, "synchronized_output_flag"@)
        &&& self.wrap_flag.id().names(target, "wrap_flag"@)
    }

    /// Build handles bound to one filter target name.
    pub fn for_target(target: &'static str) -> (fields: Self)
        ensures
            fields.are_of(target@),
    {
        PaneFields {
            pane_id: text_field(target, "pane_id"),
            alternate_saved_x: integer_field(target, "alternate_saved_x"),
            alternate_saved_y: integer_field(target, "alternate_saved_y"),
            bracket_paste_flag: bool_field(target, "bracket_paste_flag"),
            cursor_character: text_field(target, "cursor_character"),
            cursor_flag: bool_field(target, "cursor_flag"),
            cursor_x: integer_field(target, "cursor_x"),
            cursor_y: integer_field(target, "cursor_y"),
            history_bytes: integer_field(target, "history_bytes"),
            history_limit: integer_field(target, "history_limit"),
            history_size: integer_field(target, "history_size"),
            insert_flag: bool_field(target, "insert_flag"),
            keypad_cursor_flag: bool_field(target, "keypad_cursor_flag"),
            keypad_flag: bool_field(target, "keypad_flag"),
            mouse_all_flag: bool_field(target, "mouse_all_flag"),
            mouse_any_flag: bool_field(target, "mouse_any_flag"),
            mouse_button_flag: bool_field(target, "mouse_button_flag"),
            mouse_sgr_flag: bool_field(target, "mouse_sgr_flag"),
            mouse_standard_flag: bool_field(target, "mouse_standard_flag"),
            origin_flag: bool_field(target, "origin_flag"),
            pane_active: bool_field(target, "pane_active"),
            pane_at_bottom: bool_field(target, "pane_at_bottom"),
            pane_at_left: bool_field(target, "pane_at_left"),
            pane_at_right: bool_field(target, "pane_at_right"),
            pane_at_top: bool_field(target, "pane_at_top"),
            pane_bg: text_field(target, "pane_bg"),
            pane_bottom: integer_field(target, "pane_bottom"),
            pane_current_command: text_field(target, "pane_current_command"),
            pane_current_path: text_field(target, "pane_current_path"),
            pane_dead: bool_field(target, "pane_dead"),
            pane_dead_signal: text_field(target, "pane_dead_signal"),
            pane_dead_status: integer_field(target, "pane_dead_status"),
            pane_dead_time: integer_field(target, "pane_dead_time"),
            pane_fg: text_field(target, "pane_fg"),
            pane_flags: text_field(target, "pane_flags"),
            pane_floating_flag: bool_field(target, "pane_floating_flag"),
            pane_height: integer_field(target, "pane_height"),
            pane_in_mode: integer_field(target, "pane_in_mode"),
            pane_index: integer_field(target, "pane_index"),
            pane_input_off: bool_field(target, "pane_input_off"),
            pane_last: bool_field(target, "pane_last"),
            pane_left: integer_field(target, "pane_left"),
            pane_marked: bool_field(target, "pane_marked"),
            pane_mode: text_field(target, "pane_mode"),
            pane_path: text_field(target, "pane_path"),
            pane_pb_progress: integer_field(target, "pane_pb_progress"),
            pane_pb_state: enum_field(target, "pane_pb_state"),
            pane_pid: integer_field(target, "pane_pid"),
            pane_pipe: bool_field(target, "pane_pipe"),
            pane_pipe_pid: integer_field(target, "pane_pipe_pid"),
            pane_right: integer_field(target, "pane_right"),
            pane_search_string: text_field(target, "pane_search_string"),
            pane_start_command: text_field(target, "pane_start_command"),
            pane_start_path: text_field(target, "pane_start_path"),
            pane_synchronized: bool_field(target, "pane_synchronized"),
            pane_tabs: text_field(target, "pane_tabs"),
            pane_title: text_field(target, "pane_title"),
            pane_top: integer_field(target, "pane_top"),
            pane_tty: text_field(target, "pane_tty"),
            pane_unseen_changes: bool_field(target, "pane_unseen_changes"),
            pane_width: integer_field(target, "pane_width"),
            pane_x: integer_field(target, "pane_x"),
            pane_y: integer_field(target, "pane_y"),
            pane_z: integer_field(target, "pane_z"),
            pane_zoomed_flag: bool_field(target, "pane_zoomed_flag"),
            scroll_region_lower: integer_field(target, "scroll_region_lower"),
            scroll_region_upper: integer_field(target, "scroll_region_upper"),
            synchronized_output_flag: bool_field(target, "synchronized_output_flag"),
            wrap_flag: bool_field(target, "wrap_flag"),
        }
    }

    /// Render which set of handles is being held.
    pub fn debug_text(&self) -> (rendering: String)
        ensures
            rendering@ == "PaneFields { .. }"@,
    {
        "PaneFields { .. }".to_owned()
    }
}

impl Filterable for PaneInfo {
    type Fields = PaneFields<PaneInfo>;

    open spec fn target_name() -> Seq<char> {
        "pane"@
    }

    open spec fn passes(&self, predicate: model::PredicateV) -> bool {
        record::record_passes(self@, predicate)
    }

    open spec fn checked(field: Seq<char>, data: model::DataV) -> (
        Option<FilterExpressionErrorKind>,
        model::DataV,
    ) {
        record::checked_field(InfoPlacement::PaneInfo, field, data)
    }

    fn filter_target() -> (target: &'static str) {
        "pane"
    }

    fn filter_fields() -> (fields: Self::Fields)
        ensures
            fields.are_of("pane"@),
    {
        PaneFields::for_target("pane")
    }

    fn filter_matches(&self, predicate: &Predicate) -> (passes: bool) {
        assert(self.passes(predicate@) == record::record_passes(self@, predicate@));
        self.record.matches(predicate)
    }

    fn filter_validate(predicate: &mut Predicate) -> (result: Result<(), FilterExpressionError>) {
        validate_field(InfoPlacement::PaneInfo, predicate)
    }

    proof fn lemma_settles_again(field: Seq<char>, data: model::DataV) {
        record::lemma_field_settles_again(InfoPlacement::PaneInfo, field, data);
    }

    proof fn lemma_passes_alike(&self, left: model::PredicateV, right: model::PredicateV) {
        record::lemma_record_passes_alike(self@, left, right);
    }

    proof fn lemma_settling_keeps_answers(
        &self,
        predicate: model::PredicateV,
        target: Option<Seq<char>>,
    ) {
        record::lemma_known_literals_are_settled(
            InfoPlacement::PaneInfo,
            predicate.field,
            predicate.data,
        );
    }
}

impl FilterSchema for PaneInfo {
    open spec fn described() -> Seq<schema::DescriptorV> {
        seq![record::described(InfoPlacement::PaneInfo, "pane"@)]
    }

    fn describe() -> (catalog: Vec<FilterSchemaDescriptor>) {
        proof {
            record::lemma_described_is_closed(InfoPlacement::PaneInfo, "pane"@);
        }
        let mut catalog: Vec<FilterSchemaDescriptor> = Vec::new();
        catalog.push(describe(InfoPlacement::PaneInfo, "pane"));
        assert(schema::catalog_views(catalog@) =~= Self::described());
        catalog
    }
}

/// A snapshot of a pane passes and checks a test by the values that it holds.
pub proof fn law_pane_snapshots_pass_by_their_values(
    info: PaneInfo,
    predicate: model::PredicateV,
    field: Seq<char>,
    data: model::DataV,
)
    ensures
        info.passes(predicate) <==> record::record_passes(info@, predicate),
        PaneInfo::checked(field, data) == record::checked_field(InfoPlacement::PaneInfo, field, data),
        PaneInfo::target_name() == "pane"@,
        PaneInfo::described() == seq![record::described(InfoPlacement::PaneInfo, "pane"@)],
{
}

} // verus!
