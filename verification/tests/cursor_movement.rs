use std::sync::Arc;

use scratchpad::cursor::{apply_cursor_movement, CursorMovementRequest, Key, Modifiers};
use scratchpad::display_text::display_text_slice;
use scratchpad::piece_tree::PieceTreeLite;
use scratchpad::types::{CharCursor, CursorRange};

fn galley_for(text: &str) -> Arc<egui::Galley> {
    let ctx = egui::Context::default();
    let mut galley = None;
    let output = ctx.run_ui(Default::default(), |ui| {
        galley = Some(ui.ctx().fonts_mut(|fonts| {
            fonts.layout_job(egui::text::LayoutJob::simple(
                text.to_owned(),
                egui::FontId::monospace(14.0),
                egui::Color32::WHITE,
                f32::INFINITY,
            ))
        }));
    });
    output.drop_without_applying_deltas();
    galley.expect("galley")
}

fn movement(text: &str, cursor: CursorRange, key: Key, modifiers: Modifiers) -> Option<CursorRange> {
    let galley = galley_for(text);
    let tree = PieceTreeLite::from_string(text.to_owned());
    apply_cursor_movement(CursorMovementRequest {
        cursor: &cursor,
        key,
        modifiers: &modifiers,
        galley: &galley,
        page_jump_rows: 2,
        total_chars: tree.len_chars(),
        piece_tree: &tree,
        char_offset_base: 0,
        slice_chars: tree.len_chars(),
        display_map: None,
    })
}

fn caret(index: usize) -> CursorRange {
    CursorRange::one(CharCursor::new(index))
}

#[test]
fn left_and_right_move_one_character() {
    let left = movement("alpha beta", caret(3), Key::ArrowLeft, Modifiers::default()).unwrap();
    let right = movement("alpha beta", caret(3), Key::ArrowRight, Modifiers::default()).unwrap();

    assert_eq!(left.primary.index, 2);
    assert_eq!(left.secondary.index, 2);
    assert_eq!(right.primary.index, 4);
}

#[test]
fn left_at_document_start_stays_put() {
    let moved = movement("alpha", caret(0), Key::ArrowLeft, Modifiers::default()).unwrap();

    assert_eq!(moved.primary.index, 0);
}

#[test]
fn right_at_document_end_stays_put() {
    let moved = movement("alpha", caret(5), Key::ArrowRight, Modifiers::default()).unwrap();

    assert_eq!(moved.primary.index, 5);
}

#[test]
fn plain_left_collapses_selection_to_its_start() {
    let moved = movement("alpha beta", CursorRange::two(2, 7), Key::ArrowLeft, Modifiers::default());

    assert_eq!(moved, Some(caret(2)));
}

#[test]
fn shift_right_extends_from_the_anchor() {
    let shift = Modifiers { shift: true, ..Modifiers::default() };
    let moved = movement("alpha beta", caret(3), Key::ArrowRight, shift).unwrap();

    assert_eq!(moved.secondary.index, 3);
    assert_eq!(moved.primary.index, 4);
}

#[test]
fn wordwise_right_jumps_past_word_and_following_space() {
    let ctrl = Modifiers { ctrl: true, ..Modifiers::default() };
    let moved = movement("alpha beta", caret(1), Key::ArrowRight, ctrl).unwrap();

    assert_eq!(moved.primary.index, 6);
}

#[test]
fn down_moves_by_document_line() {
    let moved = movement("alpha\nbeta\n", caret(2), Key::ArrowDown, Modifiers::default());

    assert_eq!(moved, Some(caret(8)));
}

#[test]
fn up_on_first_line_moves_nowhere() {
    assert_eq!(movement("alpha\nbeta", caret(2), Key::ArrowUp, Modifiers::default()), None);
}

#[test]
fn page_down_on_last_line_falls_back_to_painted_rows() {
    let moved = movement("alpha\nbeta", caret(7), Key::PageDown, Modifiers::default()).unwrap();

    assert_eq!(moved.primary, moved.secondary);
    assert_eq!(moved.primary.index, 10);
}

#[test]
fn keys_that_do_not_move_leave_no_target() {
    assert_eq!(movement("alpha", caret(2), Key::Enter, Modifiers::default()), None);
}

#[test]
fn movement_maps_through_the_display_map() {
    let text = "a\u{200E}b";
    let display = display_text_slice(text, true);
    let galley = galley_for(&display.text);
    let tree = PieceTreeLite::from_string(text.to_owned());
    let cursor = caret(1);
    let modifiers = Modifiers::default();

    let moved = apply_cursor_movement(CursorMovementRequest {
        cursor: &cursor,
        key: Key::ArrowRight,
        modifiers: &modifiers,
        galley: &galley,
        page_jump_rows: 1,
        total_chars: tree.len_chars(),
        piece_tree: &tree,
        char_offset_base: 0,
        slice_chars: tree.len_chars(),
        display_map: display.map.as_ref(),
    })
    .unwrap();

    assert_eq!(moved.primary.index, 2);
}

#[test]
fn page_up_moves_whole_rows_towards_the_start() {
    let galley = galley_for("a\nb\nc\nd");
    let moved = scratchpad::cursor::move_by_page_rows(&galley, CharCursor::new(6), 2, false);
    assert_eq!(moved.index, 2);
    let top = scratchpad::cursor::move_by_page_rows(&galley, CharCursor::new(2), 5, false);
    assert_eq!(top.index, 0);
}

#[test]
fn clamped_caret_past_the_slice_end_lands_on_the_slice_end() {
    let galley = galley_for("abc");
    let doc = scratchpad::cursor::clamp_char_cursor(&galley, 100, CharCursor::new(10), 5, None);
    assert_eq!(doc.index, 8);
    let capped = scratchpad::cursor::clamp_char_cursor(&galley, 6, CharCursor::new(2), 5, None);
    assert_eq!(capped.index, 6);
}

#[test]
fn page_down_moves_rows_down_and_stops_at_the_end() {
    let galley = galley_for("a\nb\nc");
    let moved = scratchpad::cursor::move_by_page_rows(&galley, CharCursor::new(0), 1, true);
    assert!(moved.index >= 2 && moved.index <= 3);
    let end = scratchpad::cursor::move_by_page_rows(&galley, CharCursor::new(4), 3, true);
    assert_eq!(end.index, 5);
}

#[test]
fn right_stops_at_the_end_of_the_laid_out_text() {
    let at_end = movement("ab", caret(2), Key::ArrowRight, Modifiers::default()).unwrap();
    assert_eq!(at_end.primary.index, 2);
    let inside = movement("ab", caret(1), Key::ArrowRight, Modifiers::default()).unwrap();
    assert_eq!(inside.primary.index, 2);
}
