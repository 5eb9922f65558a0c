use std::sync::Arc;

use scratchpad::buffer::BufferState;
use scratchpad::cursor::{Key, Modifiers};
use scratchpad::keyboard::{
    ClipboardRequest, InputEvent, KeyboardInputRequest, PressedKeyEvent, RelevantInputEvent,
    fits_insertion, handle_keyboard_events, relevant_input_event,
};
use scratchpad::types::{CharCursor, CursorRange};
use scratchpad::view::EditorViewState;

fn galley_for(text: &str) -> Arc<egui::Galley> {
    let ctx = egui::Context::default();
    let mut galley = None;
    let output = ctx.run_ui(Default::default(), |ui| {
        galley = Some(ui.ctx().fonts_mut(|fonts| {
            fonts.layout_job(egui::text::LayoutJob::simple(
                text.to_owned(),
                egui::FontId::monospace(14.0),
                egui::Color32::WHITE,
                f32::INFINITY,
            ))
        }));
    });
    output.drop_without_applying_deltas();
    galley.expect("galley")
}

fn key(key: Key, modifiers: Modifiers) -> InputEvent {
    InputEvent::Key { key, pressed: true, modifiers }
}

fn command() -> Modifiers {
    Modifiers { ctrl: true, command: true, ..Modifiers::default() }
}

fn run(text: &str, cursor: CursorRange, events: Vec<InputEvent>) -> (BufferState, EditorViewState, bool, Vec<ClipboardRequest>) {
    let mut buffer = BufferState::new("sample.txt".to_owned(), text.to_owned(), None);
    let mut view = EditorViewState::new(buffer.id);
    view.cursor_range = Some(cursor);
    let galley = galley_for(text);
    let request = KeyboardInputRequest {
        galley: &galley,
        page_jump_rows: 1,
        total_chars: buffer.current_file_length().chars,
        char_offset_base: 0,
        slice_chars: buffer.current_file_length().chars,
        display_map: None,
        reserve_alt_for_shortcuts: false,
        tab_indents_text: true,
    };
    let outcome = handle_keyboard_events(events, &mut buffer, &mut view, &request);
    (buffer, view, outcome.changed, outcome.clipboard)
}

fn caret(index: usize) -> CursorRange {
    CursorRange::one(CharCursor::new(index))
}

#[test]
fn ime_preedit_event_is_kept_separate_from_committed_text() {
    let event = InputEvent::ImePreedit {
        text: "kana".to_owned(),
        active_range_chars: Some(1..3),
    };

    assert!(matches!(
        relevant_input_event(event, false),
        Some(RelevantInputEvent::ImePreedit { text, active_range_chars })
            if text == "kana" && active_range_chars == Some(1..3)
    ));
}

#[test]
fn ime_commit_event_becomes_insertable_text() {
    let event = InputEvent::ImeCommit("かな".to_owned());

    assert!(matches!(
        relevant_input_event(event, false),
        Some(RelevantInputEvent::Text(text)) if text == "かな"
    ));
}

#[test]
fn alt_keys_are_reserved_only_for_the_hyprland_input_policy() {
    let alt = Modifiers { alt: true, ..Modifiers::default() };

    assert!(matches!(
        relevant_input_event(key(Key::ArrowLeft, alt), false),
        Some(RelevantInputEvent::Key(PressedKeyEvent { key: Key::ArrowLeft, .. }))
    ));
    assert!(relevant_input_event(key(Key::ArrowLeft, alt), true).is_none());
}

#[test]
fn bare_line_breaks_and_empty_pastes_are_ignored() {
    assert!(relevant_input_event(InputEvent::Text("\n".to_owned()), false).is_none());
    assert!(relevant_input_event(InputEvent::Text(String::new()), false).is_none());
    assert!(relevant_input_event(InputEvent::Paste(String::new()), false).is_none());
    assert!(relevant_input_event(InputEvent::Other, false).is_none());
    let released = InputEvent::Key { key: Key::A, pressed: false, modifiers: Modifiers::default() };
    assert!(relevant_input_event(released, false).is_none());
}

#[test]
fn typing_replaces_the_selection() {
    let (buffer, view, changed, _) = run("hello world", CursorRange::two(6, 11), vec![InputEvent::Text("there".to_owned())]);

    assert!(changed);
    assert_eq!(buffer.text(), "hello there");
    assert_eq!(view.cursor_range, Some(caret(11)));
}

#[test]
fn enter_inserts_the_preferred_line_ending() {
    let (buffer, view, changed, _) = run("a\r\nb", caret(1), vec![key(Key::Enter, Modifiers::default())]);

    assert!(changed);
    assert_eq!(buffer.text(), "a\r\n\r\nb");
    assert_eq!(view.cursor_range, Some(caret(3)));
}

#[test]
fn backspace_then_undo_restores_the_text() {
    let (buffer, view, changed, _) = run(
        "abc",
        caret(3),
        vec![key(Key::Backspace, Modifiers::default()), key(Key::Z, command())],
    );

    assert!(changed);
    assert_eq!(buffer.text(), "abc");
    assert_eq!(view.cursor_range, Some(caret(3)));
}

#[test]
fn undo_then_redo_reapplies_the_edit() {
    let (buffer, _, _, _) = run(
        "abc",
        caret(3),
        vec![
            InputEvent::Text("d".to_owned()),
            key(Key::Z, command()),
            key(Key::Y, command()),
        ],
    );

    assert_eq!(buffer.text(), "abcd");
}

#[test]
fn undo_with_empty_history_reports_no_change() {
    let (buffer, _, changed, _) = run("abc", caret(1), vec![key(Key::Z, command())]);

    assert!(!changed);
    assert_eq!(buffer.text(), "abc");
}

#[test]
fn copy_and_cut_hand_the_selection_to_the_clipboard() {
    let (buffer, view, changed, clipboard) = run(
        "alpha beta",
        CursorRange::two(0, 5),
        vec![InputEvent::Copy, InputEvent::Cut],
    );

    assert!(changed);
    assert_eq!(buffer.text(), " beta");
    assert_eq!(view.cursor_range.unwrap().primary.index, 0);
    assert_eq!(
        clipboard,
        vec![ClipboardRequest::Copy("alpha".to_owned()), ClipboardRequest::Copy("alpha".to_owned())]
    );
}

#[test]
fn ctrl_insert_copies_and_shift_insert_asks_for_paste() {
    let ctrl = Modifiers { ctrl: true, ..Modifiers::default() };
    let shift = Modifiers { shift: true, ..Modifiers::default() };
    let (buffer, _, changed, clipboard) = run(
        "alpha",
        CursorRange::two(1, 3),
        vec![key(Key::Insert, ctrl), key(Key::Insert, shift)],
    );

    assert!(!changed);
    assert_eq!(buffer.text(), "alpha");
    assert_eq!(
        clipboard,
        vec![ClipboardRequest::Copy("lp".to_owned()), ClipboardRequest::RequestPaste]
    );
}

#[test]
fn paste_is_recorded_and_normalized() {
    let (buffer, view, changed, _) = run("ab", caret(1), vec![InputEvent::Paste("x\r\ny".to_owned())]);

    assert!(changed);
    assert_eq!(buffer.text(), "ax\nyb");
    assert_eq!(view.cursor_range, Some(caret(4)));
}

#[test]
fn command_a_selects_everything() {
    let (_, view, changed, _) = run("alpha", caret(2), vec![key(Key::A, command())]);

    assert!(!changed);
    assert_eq!(view.cursor_range, Some(CursorRange::two(0, 5)));
}

#[test]
fn arrow_keys_move_the_caret_without_change() {
    let (buffer, view, changed, _) = run("alpha\nbeta", caret(2), vec![key(Key::ArrowDown, Modifiers::default())]);

    assert!(!changed);
    assert_eq!(buffer.text(), "alpha\nbeta");
    assert_eq!(view.cursor_range, Some(caret(8)));
}

#[test]
fn preedit_is_kept_on_the_view_and_cleared_by_commit() {
    let mut buffer = BufferState::new("sample.txt".to_owned(), "ab".to_owned(), None);
    let mut view = EditorViewState::new(buffer.id);
    let galley = galley_for("ab");
    let request = KeyboardInputRequest {
        galley: &galley,
        page_jump_rows: 1,
        total_chars: 2,
        char_offset_base: 0,
        slice_chars: 2,
        display_map: None,
        reserve_alt_for_shortcuts: false,
        tab_indents_text: true,
    };

    handle_keyboard_events(
        vec![InputEvent::ImePreedit { text: "ka".to_owned(), active_range_chars: Some(0..2) }],
        &mut buffer,
        &mut view,
        &request,
    );
    assert_eq!(view.ime_preedit.as_ref().map(|p| p.text.as_str()), Some("ka"));

    handle_keyboard_events(vec![InputEvent::ImeCommit("か".to_owned())], &mut buffer, &mut view, &request);
    assert_eq!(view.ime_preedit, None);
    assert_eq!(buffer.text(), "かab");
}

#[test]
fn selection_past_the_text_end_is_skipped() {
    let (buffer, _, changed, _) = run("ab", CursorRange::two(0, 9), vec![InputEvent::Text("x".to_owned())]);

    assert!(!changed);
    assert_eq!(buffer.text(), "ab");
}

#[test]
fn insertion_room_is_checked_exactly() {
    assert!(fits_insertion(0, 10));
    assert!(fits_insertion(usize::MAX - 3, 1));
    assert!(!fits_insertion(usize::MAX - 2, 1));
    assert!(fits_insertion(usize::MAX - 1, 0));
}

#[test]
fn shift_tab_outdents_the_caret_line_without_reporting_a_change() {
    let shift = Modifiers { shift: true, ..Modifiers::default() };
    let (buffer, view, changed, _) = run("a\n    b", caret(7), vec![key(Key::Tab, shift)]);

    assert!(!changed);
    assert_eq!(buffer.text(), "a\nb");
    assert_eq!(view.cursor_range, Some(caret(3)));
}

#[test]
fn caret_movement_still_runs_when_the_selection_is_past_the_text() {
    let (buffer, view, changed, _) = run("ab", caret(9), vec![key(Key::Home, Modifiers::default())]);

    assert!(!changed);
    assert_eq!(buffer.text(), "ab");
    assert_eq!(view.cursor_range, Some(caret(0)));
}
