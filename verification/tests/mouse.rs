use scratchpad::mouse::{
    ClickSelection, PrimaryPointerAction, apply_click_selection, char_cursor_with_offset,
    cursor_range_after_click, primary_pointer_action,
};
use scratchpad::piece_tree::PieceTreeLite;
use scratchpad::types::{CharCursor, CursorRange};
use scratchpad::view::EditorViewState;

fn click(text: &str, index: usize, click_count: u32, shift: bool, current: Option<CursorRange>) -> CursorRange {
    let tree = PieceTreeLite::from_string(text.to_owned());
    let mut view = EditorViewState::new(1);
    view.cursor_range = current;
    apply_click_selection(
        &mut view,
        ClickSelection {
            piece_tree: &tree,
            char_cursor: CharCursor::new(index),
            click_count,
            row_selection: CursorRange::two(0, 5),
            shift_pressed: shift,
        },
    );
    view.cursor_range.unwrap()
}

#[test]
fn single_click_places_the_caret() {
    assert_eq!(click("alpha beta", 3, 1, false, None), CursorRange::one(CharCursor::new(3)));
}

#[test]
fn shift_click_extends_the_selection() {
    let current = Some(CursorRange::two(1, 2));
    let range = click("alpha beta", 7, 1, true, current);

    assert_eq!(range.primary, CharCursor::new(7));
    assert_eq!(range.secondary, CharCursor::new(1));
}

#[test]
fn double_click_selects_the_word() {
    assert_eq!(click("alpha beta", 7, 2, false, None), CursorRange::two(6, 10));
}

#[test]
fn triple_click_selects_the_row() {
    assert_eq!(click("alpha\nbeta", 2, 3, false, None), CursorRange::two(0, 5));
    assert_eq!(click("alpha\nbeta", 2, 4, false, None), CursorRange::two(0, 5));
}

#[test]
fn click_helpers() {
    let clicked = CharCursor { index: 4, prefer_next_row: true };
    assert_eq!(char_cursor_with_offset(clicked, 10).index, 14);
    assert_eq!(char_cursor_with_offset(clicked, usize::MAX).index, usize::MAX);
    assert_eq!(cursor_range_after_click(false, Some(CursorRange::two(0, 2)), clicked), CursorRange::one(clicked));
    assert_eq!(primary_pointer_action(false, true, false), PrimaryPointerAction::Nothing);
    assert_eq!(primary_pointer_action(true, true, true), PrimaryPointerAction::ExtendSelection);
    assert_eq!(primary_pointer_action(true, false, true), PrimaryPointerAction::Nothing);
    assert_eq!(primary_pointer_action(true, false, false), PrimaryPointerAction::Click);
}
