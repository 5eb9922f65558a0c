use scratchpad::buffer::BufferState;
use scratchpad::editor::{
    cut_selected_text, publish_active_selection, request_cursor_reveal_after_input,
    selected_text, should_rebuild_galley_after_input, sync_ime_output_focus,
};
use scratchpad::types::{CharCursor, CursorRange};
use scratchpad::view::{CursorRevealMode, EditorViewState, ImePreeditState};

#[test]
fn cursor_only_movement_inside_existing_slice_keeps_galley() {
    let before = Some(CursorRange::one(CharCursor::new(5)));
    let after = Some(CursorRange::one(CharCursor::new(50)));

    assert!(!should_rebuild_galley_after_input(
        false, None, None, before, after, 0, 100
    ));
}

#[test]
fn cursor_only_movement_outside_existing_slice_rebuilds_for_reveal() {
    let before = Some(CursorRange::one(CharCursor::new(5)));
    let after = Some(CursorRange::one(CharCursor::new(500)));

    assert!(should_rebuild_galley_after_input(
        false, None, None, before, after, 0, 100
    ));
}

#[test]
fn unchanged_input_keeps_existing_galley() {
    let cursor = Some(CursorRange::one(CharCursor::new(5)));

    assert!(!should_rebuild_galley_after_input(
        false, None, None, cursor, cursor, 0, 100
    ));
}

#[test]
fn changed_text_or_shared_selection_rebuilds_galley() {
    let cursor = Some(CursorRange::one(CharCursor::new(5)));
    assert!(should_rebuild_galley_after_input(true, None, None, cursor, cursor, 0, 100));
    assert!(should_rebuild_galley_after_input(false, Some(&(0..2)), None, cursor, cursor, 0, 100));
    assert!(!should_rebuild_galley_after_input(
        false,
        Some(&(0..2)),
        Some(&(0..2)),
        cursor,
        cursor,
        0,
        100
    ));
}

#[test]
fn publishing_active_selection_reports_shared_selection_changes() {
    let mut buffer = BufferState::new("sample.txt".to_owned(), "hello world".to_owned(), None);
    let mut view = EditorViewState::new(buffer.id);
    view.cursor_range = Some(CursorRange::two(0, 5));

    assert!(publish_active_selection(&mut buffer, &view, true));
    assert_eq!(buffer.active_selection, Some(0..5));
    assert!(!publish_active_selection(&mut buffer, &view, true));
}

#[test]
fn unfocused_editor_does_not_publish_selection() {
    let mut buffer = BufferState::new("sample.txt".to_owned(), "hello world".to_owned(), None);
    let mut view = EditorViewState::new(buffer.id);
    view.cursor_range = Some(CursorRange::two(0, 5));

    assert!(!publish_active_selection(&mut buffer, &view, false));
    assert_eq!(buffer.active_selection, None);
}

#[test]
fn selection_copy_returns_document_controls_not_display_glyphs() {
    let text = "a\u{200E}\n\tb";
    let buffer = BufferState::new("sample.txt".to_owned(), text.to_owned(), None);
    let selection = CursorRange::two(0, buffer.current_file_length().chars);

    let copied = selected_text(&buffer, selection).unwrap();

    assert_eq!(copied, text);
    assert!(!copied.contains('\u{F003}'));
    assert!(!copied.contains('\u{240A}'));
    assert!(!copied.contains('\u{2409}'));
}

#[test]
fn empty_selection_copies_nothing() {
    let buffer = BufferState::new("sample.txt".to_owned(), "abc".to_owned(), None);
    assert_eq!(selected_text(&buffer, CursorRange::one(CharCursor::new(1))), None);
}

#[test]
fn cut_returns_document_controls_not_display_glyphs() {
    let mut buffer = BufferState::new("sample.txt".to_owned(), "a\u{200E}\n\tb".to_owned(), None);
    let selection = CursorRange::two(1, 4);

    let (_, cut) = cut_selected_text(&mut buffer, selection).unwrap();

    assert_eq!(cut, "\u{200E}\n\t");
    assert_eq!(buffer.text(), "ab");
}

#[test]
fn cut_is_refused_while_loading_preview() {
    let mut buffer = BufferState::new("sample.txt".to_owned(), "abcd".to_owned(), None);
    buffer.is_loading_preview = true;

    assert!(cut_selected_text(&mut buffer, CursorRange::two(1, 3)).is_none());
    assert_eq!(buffer.text(), "abcd");
}

#[test]
fn undo_after_control_char_edit_restores_document_text() {
    let mut buffer = BufferState::new("sample.txt".to_owned(), "ab".to_owned(), None);
    let previous = CursorRange::one(CharCursor::new(1));
    let next = CursorRange::one(CharCursor::new(2));

    buffer
        .replace_char_ranges_with_undo(&[(1..1, "\u{200E}".to_owned())], previous, next)
        .unwrap();
    assert_eq!(buffer.text(), "a\u{200E}b");

    let undo_selection = buffer.undo_last_text_operation().unwrap();

    assert_eq!(buffer.text(), "ab");
    assert_eq!(undo_selection, previous);
}

#[test]
fn same_line_edit_requests_horizontal_cursor_reveal() {
    let buffer = BufferState::new("sample.txt".to_owned(), "alpha beta".to_owned(), None);
    let mut view = EditorViewState::new(buffer.id);
    let previous = Some(CursorRange::one(CharCursor::new(1)));
    view.cursor_range = Some(CursorRange::one(CharCursor::new(2)));

    request_cursor_reveal_after_input(&buffer, &mut view, previous, Some(0), false, true, false);

    assert_eq!(
        view.cursor_reveal_mode(),
        Some(CursorRevealMode::KeepHorizontalVisible)
    );
}

#[test]
fn wrapped_same_line_edit_requests_vertical_cursor_reveal() {
    let buffer = BufferState::new("sample.txt".to_owned(), "alpha beta".to_owned(), None);
    let mut view = EditorViewState::new(buffer.id);
    let previous = Some(CursorRange::one(CharCursor::new(1)));
    view.cursor_range = Some(CursorRange::one(CharCursor::new(2)));

    request_cursor_reveal_after_input(&buffer, &mut view, previous, Some(0), true, true, false);

    assert_eq!(
        view.cursor_reveal_mode(),
        Some(CursorRevealMode::KeepVisible)
    );
}

#[test]
fn newline_edit_requests_vertical_cursor_reveal() {
    let buffer = BufferState::new("sample.txt".to_owned(), "alpha\nbeta".to_owned(), None);
    let mut view = EditorViewState::new(buffer.id);
    let previous = Some(CursorRange::one(CharCursor::new(4)));
    view.cursor_range = Some(CursorRange::one(CharCursor::new(7)));

    request_cursor_reveal_after_input(&buffer, &mut view, previous, Some(0), false, true, false);

    assert_eq!(
        view.cursor_reveal_mode(),
        Some(CursorRevealMode::KeepVisible)
    );
}

#[test]
fn cursor_movement_without_edit_requests_keep_visible_reveal() {
    let buffer = BufferState::new("sample.txt".to_owned(), "alpha\nbeta".to_owned(), None);
    let mut view = EditorViewState::new(buffer.id);
    let previous = Some(CursorRange::one(CharCursor::new(1)));
    view.cursor_range = Some(CursorRange::one(CharCursor::new(3)));

    request_cursor_reveal_after_input(&buffer, &mut view, previous, Some(0), false, false, false);

    assert_eq!(
        view.cursor_reveal_mode(),
        Some(CursorRevealMode::KeepVisible)
    );
}

#[test]
fn unchanged_cursor_does_not_request_reveal() {
    let buffer = BufferState::new("sample.txt".to_owned(), "alpha".to_owned(), None);
    let cursor = Some(CursorRange::one(CharCursor::new(1)));
    let mut view = EditorViewState::new(buffer.id);
    view.cursor_range = cursor;

    request_cursor_reveal_after_input(&buffer, &mut view, cursor, Some(0), false, true, false);

    assert_eq!(view.cursor_reveal_mode(), None);
}

#[test]
fn selection_drag_suppresses_cursor_reveal() {
    let buffer = BufferState::new("sample.txt".to_owned(), "alpha".to_owned(), None);
    let mut view = EditorViewState::new(buffer.id);
    view.request_cursor_reveal(CursorRevealMode::Center);
    let previous = Some(CursorRange::one(CharCursor::new(1)));
    view.cursor_range = Some(CursorRange::one(CharCursor::new(2)));

    request_cursor_reveal_after_input(&buffer, &mut view, previous, Some(0), false, true, true);

    assert_eq!(view.cursor_reveal_mode(), None);
}

#[test]
fn losing_focus_clears_ime_state() {
    let mut view = EditorViewState::new(1);
    view.ime_preedit = Some(ImePreeditState::new("kana".to_owned(), None));
    assert!(view.mark_ime_output());

    sync_ime_output_focus(&mut view, false);

    assert_eq!(view.ime_preedit, None);
    assert!(view.mark_ime_output());
}

#[test]
fn keeping_focus_keeps_ime_state() {
    let mut view = EditorViewState::new(1);
    view.ime_preedit = Some(ImePreeditState::new("kana".to_owned(), None));
    assert!(view.mark_ime_output());

    sync_ime_output_focus(&mut view, true);

    assert_eq!(view.ime_preedit.as_ref().map(|preedit| preedit.text.as_str()), Some("kana"));
    assert!(!view.mark_ime_output());
}
