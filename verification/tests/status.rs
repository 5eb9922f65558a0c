use scratchpad::status::status_cursor_range;
use scratchpad::types::{CharCursor, CursorRange};
use scratchpad::view::EditorViewState;

#[test]
fn status_prefers_live_cursor_over_pending_cursor() {
    let mut view = EditorViewState::new(1);
    view.cursor_range = Some(CursorRange::two(0, 8));
    view.pending_cursor_range = Some(CursorRange::one(CharCursor::new(3)));

    assert_eq!(status_cursor_range(&view), Some(CursorRange::two(0, 8)));
}

#[test]
fn status_falls_back_to_pending_cursor() {
    let mut view = EditorViewState::new(1);
    view.pending_cursor_range = Some(CursorRange::one(CharCursor::new(3)));

    assert_eq!(status_cursor_range(&view), Some(CursorRange::one(CharCursor::new(3))));
}

use scratchpad::status::{StatusBarActions, StatusCommand, apply_status_actions};

#[test]
fn status_actions_become_commands_in_order() {
    let actions = StatusBarActions {
        toggle_line_numbers: true,
        open_settings: true,
        open_encoding_dialog: true,
        ..StatusBarActions::default()
    };

    assert_eq!(
        apply_status_actions(&actions),
        vec![StatusCommand::ToggleLineNumbers, StatusCommand::OpenEncodingDialog, StatusCommand::OpenSettings]
    );
    assert!(apply_status_actions(&StatusBarActions::default()).is_empty());
}

use scratchpad::status::{StatusBarItemKind, active_status_item_kinds};

#[test]
fn status_items_follow_the_shown_labels() {
    assert_eq!(
        active_status_item_kinds(true, false, true),
        vec![
            StatusBarItemKind::LineCount,
            StatusBarItemKind::Cursor,
            StatusBarItemKind::DiskState,
            StatusBarItemKind::Encoding,
            StatusBarItemKind::LineEndings,
            StatusBarItemKind::ControlChars,
            StatusBarItemKind::TextHistory,
            StatusBarItemKind::Settings,
            StatusBarItemKind::NonCompliant,
        ]
    );
    assert_eq!(active_status_item_kinds(false, true, false)[1], StatusBarItemKind::Selection);
    assert_eq!(active_status_item_kinds(false, false, false).len(), 7);
}
