use scratchpad::cursor::{
    Key, Modifiers, finalize_cursor_movement, full_document_movement_target,
    logical_line_movement_target,
};
use scratchpad::piece_tree::PieceTreeLite;
use scratchpad::types::{CharCursor, CursorRange};

fn tree(text: &str) -> PieceTreeLite {
    PieceTreeLite::from_string(text.to_owned())
}

#[test]
fn arrow_down_moves_past_visible_slice_boundaries_by_document_line() {
    let tree = tree("alpha\nb\ncharlie\n");

    let target = logical_line_movement_target(1, 2, tree.len_chars(), &tree).unwrap();

    assert_eq!(target.index, 9);
}

#[test]
fn arrow_down_clamps_to_shorter_target_line() {
    let tree = tree("alpha\nb\ncharlie\n");

    let target = logical_line_movement_target(4, 1, tree.len_chars(), &tree).unwrap();

    assert_eq!(target.index, 7);
}

#[test]
fn arrow_up_on_first_line_has_no_target() {
    let tree = tree("alpha\nb\n");

    assert_eq!(logical_line_movement_target(2, -1, tree.len_chars(), &tree), None);
    assert_eq!(logical_line_movement_target(2, 0, tree.len_chars(), &tree), None);
}

#[test]
fn page_down_uses_document_lines_not_galley_edges() {
    let tree = tree("one\ntwo\nthree\nfour\nfive\n");

    let target = full_document_movement_target(
        1,
        Key::PageDown,
        &Modifiers::default(),
        3,
        tree.len_chars(),
        &tree,
    )
    .unwrap();

    assert_eq!(target.index, 15);
}

#[test]
fn end_stops_before_line_ending() {
    let tree = tree("alpha\r\nbeta\n");

    let target = full_document_movement_target(
        1,
        Key::End,
        &Modifiers::default(),
        1,
        tree.len_chars(),
        &tree,
    )
    .unwrap();

    assert_eq!(target.index, 5);
}

#[test]
fn command_home_and_end_jump_to_document_edges() {
    let tree = tree("alpha\nbeta\n");
    let command = Modifiers { command: true, ..Modifiers::default() };

    let home = full_document_movement_target(7, Key::Home, &command, 1, tree.len_chars(), &tree);
    let end = full_document_movement_target(7, Key::End, &command, 1, tree.len_chars(), &tree);

    assert_eq!(home, Some(CharCursor::new(0)));
    assert_eq!(end, Some(CharCursor::new(11)));
}

#[test]
fn plain_arrow_collapses_selection_to_its_edge() {
    let selection = CursorRange::two(2, 6);

    let left = finalize_cursor_movement(&selection, Key::ArrowLeft, &Modifiers::default(), CharCursor::new(5));
    let right = finalize_cursor_movement(&selection, Key::ArrowRight, &Modifiers::default(), CharCursor::new(7));
    let shift = Modifiers { shift: true, ..Modifiers::default() };
    let extended = finalize_cursor_movement(&selection, Key::ArrowRight, &shift, CharCursor::new(7));

    assert_eq!(left, CursorRange::one(CharCursor::new(2)));
    assert_eq!(right, CursorRange::one(CharCursor::new(6)));
    assert_eq!(extended.primary, CharCursor::new(7));
    assert_eq!(extended.secondary, CharCursor::new(2));
}
