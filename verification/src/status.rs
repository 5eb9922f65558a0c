//! Status bar texts for the active buffer.
use vstd::prelude::*;
use crate::text::{decimal, push_decimal, push_str};
use crate::types::CursorRange;
use crate::view::EditorViewState;

verus! {

/// How the buffer relates to its file on disk.
#[derive(Clone, Copy, Debug, PartialEq, Eq, Structural)]
pub enum BufferFreshness {
    InSync,
    AutoReloaded,
    StaleOnDisk,
    ConflictOnDisk,
    MissingOnDisk,
}

/// What the status bar knows of a buffer's disk state.
pub struct DiskStateInputs {
    pub has_path: bool,
    pub path_exists: bool,
    pub freshness: BufferFreshness,
    pub is_dirty: bool,
}

/// The caret position and selection size shown for the active view.
pub struct BufferViewStatus {
    pub cursor_line: Option<usize>,
    pub cursor_column: Option<usize>,
    pub selection_chars: usize,
}

/// Encoding facts of a buffer's file.
pub struct TextFormatMetadata {
    pub encoding_name: String,
    pub has_bom: bool,
}

/// The selection the status bar reports: the live one, else the pending one.
pub fn status_cursor_range(view: &EditorViewState) -> (range: Option<CursorRange>)
    ensures
        range == match view.cursor_range {
            Some(c) => Some(c),
            None => view.pending_cursor_range,
        },
{
    match view.cursor_range {
        Some(c) => Some(c),
        None => view.pending_cursor_range,
    }
}

/// "Lines: <n>".
pub fn line_count_label(line_count: usize) -> (label: String)
    ensures
        label@ == "Lines: "@ + decimal(line_count as nat),
{
    let mut label = String::new();
    push_str(&mut label, "Lines: ");
    push_decimal(&mut label, line_count);
    label
}

/// "Ln <line>, Col <column>", when both are known.
pub fn cursor_label(status: &BufferViewStatus) -> (label: Option<String>)
    ensures
        match (status.cursor_line, status.cursor_column) {
            (Some(l), Some(c)) => label is Some && label->0@ == "Ln "@ + decimal(l as nat) + ", Col "@ + decimal(c as nat),
            _ => label is None,
        },
{
    let line = match status.cursor_line {
        Some(l) => l,
        None => {
            return None;
        },
    };
    let column = match status.cursor_column {
        Some(c) => c,
        None => {
            return None;
        },
    };
    let mut label = String::new();
    push_str(&mut label, "Ln ");
    push_decimal(&mut label, line);
    push_str(&mut label, ", Col ");
    push_decimal(&mut label, column);
    Some(label)
}

/// "Sel <n>", when characters are selected.
pub fn selection_label(status: &BufferViewStatus) -> (label: Option<String>)
    ensures
        status.selection_chars > 0 ==> label is Some && label->0@ == "Sel "@ + decimal(status.selection_chars as nat),
        status.selection_chars == 0 ==> label is None,
{
    if status.selection_chars > 0 {
        let mut label = String::new();
        push_str(&mut label, "Sel ");
        push_decimal(&mut label, status.selection_chars);
        Some(label)
    } else {
        None
    }
}

/// The disk state text: an unsaved buffer has unsaved edits; a buffer whose
/// file reappeared is saved or has unsaved edits; otherwise by its freshness.
pub open spec fn disk_state_text(inputs: DiskStateInputs) -> Seq<char> {
    if !inputs.has_path {
        "Unsaved edits"@
    } else if inputs.freshness == BufferFreshness::MissingOnDisk && inputs.path_exists {
        if inputs.is_dirty { "Unsaved edits"@ } else { "Saved"@ }
    } else {
        match inputs.freshness {
            BufferFreshness::InSync => if inputs.is_dirty { "Unsaved edits"@ } else { "Saved"@ },
            BufferFreshness::AutoReloaded => "Changed on disk"@,
            BufferFreshness::StaleOnDisk => "Changed on disk; reload failed"@,
            BufferFreshness::ConflictOnDisk => "Conflict; choose save action"@,
            BufferFreshness::MissingOnDisk => "Missing"@,
        }
    }
}

/// The disk state shown in the status bar.
pub fn disk_state_label(inputs: &DiskStateInputs) -> (label: String)
    ensures
        label@ == disk_state_text(*inputs),
{
    let text: &str = if !inputs.has_path {
        "Unsaved edits"
    } else if inputs.freshness == BufferFreshness::MissingOnDisk && inputs.path_exists {
        if inputs.is_dirty { "Unsaved edits" } else { "Saved" }
    } else {
        match inputs.freshness {
            BufferFreshness::InSync => if inputs.is_dirty { "Unsaved edits" } else { "Saved" },
            BufferFreshness::AutoReloaded => "Changed on disk",
            BufferFreshness::StaleOnDisk => "Changed on disk; reload failed",
            BufferFreshness::ConflictOnDisk => "Conflict; choose save action",
            BufferFreshness::MissingOnDisk => "Missing",
        }
    };
    let mut label = String::new();
    push_str(&mut label, text);
    label
}

/// The disk state reads "Saved" exactly for a file-backed buffer without
/// unsaved changes that is in sync with its file (or whose missing file has
/// reappeared), and "Unsaved edits" exactly for a buffer with no file or a
/// dirty buffer in either of those states: a buffer with unsaved changes is
/// never labelled "Saved".
pub proof fn disk_state_saved_only_when_clean(inputs: DiskStateInputs)
    ensures
        ({
            let in_step = inputs.has_path && (inputs.freshness == BufferFreshness::InSync
                || (inputs.freshness == BufferFreshness::MissingOnDisk && inputs.path_exists));
            &&& disk_state_text(inputs) == "Saved"@ <==> in_step && !inputs.is_dirty
            &&& disk_state_text(inputs) == "Unsaved edits"@ <==> !inputs.has_path || (in_step && inputs.is_dirty)
        }),
        inputs.is_dirty ==> disk_state_text(inputs) != "Saved"@,
{
    reveal_strlit("Saved");
    reveal_strlit("Unsaved edits");
    reveal_strlit("Changed on disk");
    reveal_strlit("Changed on disk; reload failed");
    reveal_strlit("Conflict; choose save action");
    reveal_strlit("Missing");
    assert("Saved"@ != "Unsaved edits"@) by {
        assert("Saved"@.len() != "Unsaved edits"@.len());
    }
    assert("Saved"@ != "Changed on disk"@) by {
        assert("Saved"@[0] != "Changed on disk"@[0]);
    }
    assert("Saved"@ != "Changed on disk; reload failed"@) by {
        assert("Saved"@[0] != "Changed on disk; reload failed"@[0]);
    }
    assert("Saved"@ != "Conflict; choose save action"@) by {
        assert("Saved"@[0] != "Conflict; choose save action"@[0]);
    }
    assert("Saved"@ != "Missing"@) by {
        assert("Saved"@[0] != "Missing"@[0]);
    }
    assert("Unsaved edits"@ != "Changed on disk"@) by {
        assert("Unsaved edits"@[0] != "Changed on disk"@[0]);
    }
    assert("Unsaved edits"@ != "Changed on disk; reload failed"@) by {
        assert("Unsaved edits"@[0] != "Changed on disk; reload failed"@[0]);
    }
    assert("Unsaved edits"@ != "Conflict; choose save action"@) by {
        assert("Unsaved edits"@[0] != "Conflict; choose save action"@[0]);
    }
    assert("Unsaved edits"@ != "Missing"@) by {
        assert("Unsaved edits"@[0] != "Missing"@[0]);
    }
}

/// Each other disk state text names exactly one situation of a file-backed
/// buffer: "Changed on disk" an automatic reload, "Changed on disk; reload
/// failed" a stale buffer, "Conflict; choose save action" a conflict, and
/// "Missing" a file that is gone and has not reappeared.
pub proof fn disk_state_names_each_situation(inputs: DiskStateInputs)
    ensures
        disk_state_text(inputs) == "Changed on disk"@
            <==> inputs.has_path && inputs.freshness == BufferFreshness::AutoReloaded,
        disk_state_text(inputs) == "Changed on disk; reload failed"@
            <==> inputs.has_path && inputs.freshness == BufferFreshness::StaleOnDisk,
        disk_state_text(inputs) == "Conflict; choose save action"@
            <==> inputs.has_path && inputs.freshness == BufferFreshness::ConflictOnDisk,
        disk_state_text(inputs) == "Missing"@
            <==> inputs.has_path && inputs.freshness == BufferFreshness::MissingOnDisk && !inputs.path_exists,
{
    disk_state_saved_only_when_clean(inputs);
    reveal_strlit("Saved");
    reveal_strlit("Unsaved edits");
    reveal_strlit("Changed on disk");
    reveal_strlit("Changed on disk; reload failed");
    reveal_strlit("Conflict; choose save action");
    reveal_strlit("Missing");
    assert("Changed on disk"@ != "Changed on disk; reload failed"@) by {
        assert("Changed on disk"@.len() != "Changed on disk; reload failed"@.len());
    }
    assert("Changed on disk"@ != "Conflict; choose save action"@) by {
        assert("Changed on disk"@[1] != "Conflict; choose save action"@[1]);
    }
    assert("Changed on disk"@ != "Missing"@) by {
        assert("Changed on disk"@[0] != "Missing"@[0]);
    }
    assert("Changed on disk; reload failed"@ != "Conflict; choose save action"@) by {
        assert("Changed on disk; reload failed"@[1] != "Conflict; choose save action"@[1]);
    }
    assert("Changed on disk; reload failed"@ != "Missing"@) by {
        assert("Changed on disk; reload failed"@[0] != "Missing"@[0]);
    }
    assert("Conflict; choose save action"@ != "Missing"@) by {
        assert("Conflict; choose save action"@[0] != "Missing"@[0]);
    }
    assert("Saved"@ != "Changed on disk"@) by {
        assert("Saved"@[0] != "Changed on disk"@[0]);
    }
    assert("Saved"@ != "Changed on disk; reload failed"@) by {
        assert("Saved"@[0] != "Changed on disk; reload failed"@[0]);
    }
    assert("Saved"@ != "Conflict; choose save action"@) by {
        assert("Saved"@[0] != "Conflict; choose save action"@[0]);
    }
    assert("Saved"@ != "Missing"@) by {
        assert("Saved"@[0] != "Missing"@[0]);
    }
    assert("Unsaved edits"@ != "Changed on disk"@) by {
        assert("Unsaved edits"@[0] != "Changed on disk"@[0]);
    }
    assert("Unsaved edits"@ != "Changed on disk; reload failed"@) by {
        assert("Unsaved edits"@[0] != "Changed on disk; reload failed"@[0]);
    }
    assert("Unsaved edits"@ != "Conflict; choose save action"@) by {
        assert("Unsaved edits"@[0] != "Conflict; choose save action"@[0]);
    }
    assert("Unsaved edits"@ != "Missing"@) by {
        assert("Unsaved edits"@[0] != "Missing"@[0]);
    }
}

/// ASCII lower case of a character; other characters are unchanged.
pub open spec fn ascii_lower(c: char) -> char {
    if 'A' <= c && c <= 'Z' { ((c as u32) + 32) as u32 as char } else { c }
}

/// Equal up to ASCII case.
pub open spec fn eq_ignoring_ascii_case(a: Seq<char>, b: Seq<char>) -> bool {
    a.len() == b.len() && forall|i: int| 0 <= i < a.len() ==> ascii_lower(#[trigger] a[i]) == ascii_lower(b[i])
}

/// `str::eq_ignore_ascii_case` compares two strings, ASCII letters regardless of case.
pub assume_specification[ str::eq_ignore_ascii_case ](s: &str, other: &str) -> (r: bool)
    ensures
        r == eq_ignoring_ascii_case(s@, other@),
;

/// The encoding is flagged unless it is UTF-8 without a byte-order mark.
pub fn status_bar_encoding_is_non_default(format: &TextFormatMetadata) -> (flagged: bool)
    ensures
        flagged == (!eq_ignoring_ascii_case(format.encoding_name@, "UTF-8"@) || format.has_bom),
{
    !format.encoding_name.as_str().eq_ignore_ascii_case("UTF-8") || format.has_bom
}

/// Items of the status bar, in order from the left.
#[derive(Clone, Copy, Debug, PartialEq, Eq, Structural)]
pub enum StatusBarItemKind {
    LineCount,
    Cursor,
    Selection,
    DiskState,
    Encoding,
    LineEndings,
    ControlChars,
    TextHistory,
    Settings,
    NonCompliant,
}

} // verus!

verus! {

/// Requests raised by clicks on status bar items this frame.
#[derive(Clone, Copy, Debug, Default, PartialEq, Eq, Structural)]
pub struct StatusBarActions {
    pub toggle_line_numbers: bool,
    pub toggle_control_chars: bool,
    pub open_status_history: bool,
    pub open_text_history: bool,
    pub open_encoding_dialog: bool,
    pub open_settings: bool,
}

/// What the status bar asks of the application.
#[derive(Clone, Copy, Debug, PartialEq, Eq, Structural)]
pub enum StatusCommand {
    /// Show or hide line numbers of the active tab.
    ToggleLineNumbers,
    /// Show or hide control characters of the active buffer.
    ToggleControlChars,
    OpenEncodingDialog,
    OpenTextHistory,
    OpenStatusHistory,
    OpenSettings,
}

/// A command when its request was raised.
pub open spec fn command_if(requested: bool, command: StatusCommand) -> Seq<StatusCommand> {
    if requested { seq![command] } else { Seq::empty() }
}

/// The commands for the raised requests, in the order the application
/// carries them out: the two toggles, then the encoding dialog, the text
/// history, the status history and the settings.
pub open spec fn status_commands(actions: StatusBarActions) -> Seq<StatusCommand> {
    command_if(actions.toggle_line_numbers, StatusCommand::ToggleLineNumbers)
        + command_if(actions.toggle_control_chars, StatusCommand::ToggleControlChars)
        + command_if(actions.open_encoding_dialog, StatusCommand::OpenEncodingDialog)
        + command_if(actions.open_text_history, StatusCommand::OpenTextHistory)
        + command_if(actions.open_status_history, StatusCommand::OpenStatusHistory)
        + command_if(actions.open_settings, StatusCommand::OpenSettings)
}

fn push_if(commands: &mut Vec<StatusCommand>, requested: bool, command: StatusCommand)
    ensures
        final(commands)@ == old(commands)@ + command_if(requested, command),
{
    if requested {
        commands.push(command);
        assert(commands@ =~= old(commands)@ + command_if(requested, command));
    } else {
        assert(old(commands)@ + command_if(requested, command) =~= old(commands)@);
    }
}

/// The commands for this frame's status bar clicks.
pub fn apply_status_actions(actions: &StatusBarActions) -> (commands: Vec<StatusCommand>)
    ensures
        commands@ == status_commands(*actions),
{
    let mut commands: Vec<StatusCommand> = Vec::new();
    push_if(&mut commands, actions.toggle_line_numbers, StatusCommand::ToggleLineNumbers);
    push_if(&mut commands, actions.toggle_control_chars, StatusCommand::ToggleControlChars);
    push_if(&mut commands, actions.open_encoding_dialog, StatusCommand::OpenEncodingDialog);
    push_if(&mut commands, actions.open_text_history, StatusCommand::OpenTextHistory);
    push_if(&mut commands, actions.open_status_history, StatusCommand::OpenStatusHistory);
    push_if(&mut commands, actions.open_settings, StatusCommand::OpenSettings);
    assert(commands@ =~= status_commands(*actions));
    commands
}

} // verus!

verus! {

/// The status bar's items, in order from the left: the line count, the
/// caret position and the selection size when they are shown, the disk
/// state, the encoding, the line endings, the control-character, history and
/// settings buttons, and a warning when the text holds non-compliant characters.
pub open spec fn status_item_kinds(has_cursor_label: bool, has_selection_label: bool, has_non_compliant_characters: bool) -> Seq<StatusBarItemKind> {
    seq![StatusBarItemKind::LineCount]
        + (if has_cursor_label { seq![StatusBarItemKind::Cursor] } else { Seq::empty() })
        + (if has_selection_label { seq![StatusBarItemKind::Selection] } else { Seq::empty() })
        + seq![
            StatusBarItemKind::DiskState,
            StatusBarItemKind::Encoding,
            StatusBarItemKind::LineEndings,
            StatusBarItemKind::ControlChars,
            StatusBarItemKind::TextHistory,
            StatusBarItemKind::Settings,
        ]
        + (if has_non_compliant_characters { seq![StatusBarItemKind::NonCompliant] } else { Seq::empty() })
}

/// The kinds of the items the status bar shows for the active buffer.
pub fn active_status_item_kinds(
    has_cursor_label: bool,
    has_selection_label: bool,
    has_non_compliant_characters: bool,
) -> (kinds: Vec<StatusBarItemKind>)
    ensures
        kinds@ == status_item_kinds(has_cursor_label, has_selection_label, has_non_compliant_characters),
{
    let mut kinds: Vec<StatusBarItemKind> = Vec::new();
    kinds.push(StatusBarItemKind::LineCount);
    if has_cursor_label {
        kinds.push(StatusBarItemKind::Cursor);
    }
    if has_selection_label {
        kinds.push(StatusBarItemKind::Selection);
    }
    kinds.push(StatusBarItemKind::DiskState);
    kinds.push(StatusBarItemKind::Encoding);
    kinds.push(StatusBarItemKind::LineEndings);
    kinds.push(StatusBarItemKind::ControlChars);
    kinds.push(StatusBarItemKind::TextHistory);
    kinds.push(StatusBarItemKind::Settings);
    if has_non_compliant_characters {
        kinds.push(StatusBarItemKind::NonCompliant);
    }
    assert(kinds@ =~= status_item_kinds(has_cursor_label, has_selection_label, has_non_compliant_characters));
    kinds
}

} // verus!
