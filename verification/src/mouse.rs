//! Selection by mouse: what a click, a double click, a triple click or a
//! drag selects.
use vstd::prelude::*;
use crate::piece_tree::PieceTreeLite;
use crate::cursor::{galley_cursor_begin_of_row, galley_cursor_end_of_row, galley_row_count, galley_rows, row_begin_caret, row_end_caret, rows_fit};
use crate::types::{CharCursor, CursorRange};
use crate::view::EditorViewState;
use crate::word_boundary::{word_end, word_end_of, word_start, word_start_of};

verus! {

/// Document caret for a caret of a slice starting at `char_offset_base`
/// (the sum saturating at the largest index).
pub fn char_cursor_with_offset(cursor: CharCursor, char_offset_base: usize) -> (doc: CharCursor)
    ensures
        doc.index == char_offset_base.saturating_add(cursor.index),
        doc.prefer_next_row == cursor.prefer_next_row,
{
    CharCursor {
        index: char_offset_base.saturating_add(cursor.index),
        prefer_next_row: cursor.prefer_next_row,
    }
}

/// A click with Shift extends the current selection to the clicked caret;
/// otherwise it places the caret there.
pub fn cursor_range_after_click(shift_pressed: bool, current: Option<CursorRange>, clicked_cursor: CharCursor) -> (range: CursorRange)
    ensures
        range == match current {
            Some(existing) if shift_pressed => CursorRange { primary: clicked_cursor, secondary: existing.secondary },
            _ => CursorRange::one_spec(clicked_cursor),
        },
{
    match current {
        Some(existing) => if shift_pressed {
            CursorRange { primary: clicked_cursor, secondary: existing.secondary }
        } else {
            CursorRange::one(clicked_cursor)
        },
        None => CursorRange::one(clicked_cursor),
    }
}

/// A click on the laid-out slice of a document. `click_count` is already
/// reduced to 1 for a click past the end of a painted row, and
/// `row_selection` is the painted row under the pointer as a document
/// selection.
pub struct ClickSelection<'a> {
    pub piece_tree: &'a PieceTreeLite,
    pub char_cursor: CharCursor,
    pub click_count: u32,
    pub row_selection: CursorRange,
    pub shift_pressed: bool,
}

/// The selection a click makes: a double click selects the word under the
/// pointer, a triple click (or more) the painted row, and a single click
/// places (or with Shift extends to) the caret.
pub fn apply_click_selection(view: &mut EditorViewState, click: ClickSelection)
    ensures
        *final(view) == (EditorViewState { cursor_range: final(view).cursor_range, ..*old(view) }),
        final(view).cursor_range == Some(if click.click_count == 2 {
            CursorRange {
                primary: CharCursor { index: word_end_of(click.piece_tree@, click.char_cursor.index as int) as usize, prefer_next_row: false },
                secondary: CharCursor { index: word_start_of(click.piece_tree@, click.char_cursor.index as int) as usize, prefer_next_row: false },
            }
        } else if click.click_count >= 3 {
            click.row_selection
        } else {
            match old(view).cursor_range {
                Some(existing) if click.shift_pressed =>
                    CursorRange { primary: click.char_cursor, secondary: existing.secondary },
                _ => CursorRange::one_spec(click.char_cursor),
            }
        }),
{
    let range = if click.click_count == 2 {
        let start = word_start(click.piece_tree, click.char_cursor.index);
        let end = word_end(click.piece_tree, click.char_cursor.index);
        CursorRange::two(start, end)
    } else if click.click_count >= 3 {
        click.row_selection
    } else {
        cursor_range_after_click(click.shift_pressed, view.cursor_range, click.char_cursor)
    };
    view.cursor_range = Some(range);
}

/// What the primary pointer does to the selection this frame.
#[derive(Clone, Copy, Debug, PartialEq, Eq, Structural)]
pub enum PrimaryPointerAction {
    /// Nothing: the button is up, or it was already down last frame.
    Nothing,
    /// Dragging extends the selection to the pointer.
    ExtendSelection,
    /// A new press: count the click and select by it.
    Click,
}

/// While the primary button is down, a drag extends the selection and a new
/// press is a click; a button held since last frame does nothing more.
pub fn primary_pointer_action(primary_pointer_down: bool, dragged: bool, was_primary_pointer_down: bool) -> (action: PrimaryPointerAction)
    ensures
        action == if !primary_pointer_down {
            PrimaryPointerAction::Nothing
        } else if dragged {
            PrimaryPointerAction::ExtendSelection
        } else if was_primary_pointer_down {
            PrimaryPointerAction::Nothing
        } else {
            PrimaryPointerAction::Click
        },
{
    if !primary_pointer_down {
        return PrimaryPointerAction::Nothing;
    }
    if dragged {
        return PrimaryPointerAction::ExtendSelection;
    }
    if was_primary_pointer_down {
        return PrimaryPointerAction::Nothing;
    }
    PrimaryPointerAction::Click
}

/// A click at the end of a painted row counts as a single click, whatever
/// its click count; the galley must hold a row.
pub fn normalize_click_count(galley: &egui::Galley, cursor_at_pointer: CharCursor, click_count: u32) -> (count: u32)
    requires
        galley_rows(*galley).len() > 0,
    ensures
        rows_fit(galley_rows(*galley)) ==> count == if cursor_at_pointer.index
            == row_end_caret(galley_rows(*galley), cursor_at_pointer).index {
            1
        } else {
            click_count
        },
{
    let row_end = galley_cursor_end_of_row(galley, cursor_at_pointer);
    if cursor_at_pointer.index == row_end.index { 1 } else { click_count }
}

/// The painted row under the pointer as a document selection: from its
/// start to its end (the primary end), offset by the slice start; the galley
/// must hold a row.
pub fn line_selection_range(galley: &egui::Galley, char_offset_base: usize, cursor_at_pointer: CharCursor) -> (range: CursorRange)
    requires
        galley_rows(*galley).len() > 0,
    ensures
        rows_fit(galley_rows(*galley)) ==> {
            let begin = row_begin_caret(galley_rows(*galley), cursor_at_pointer);
            let end = row_end_caret(galley_rows(*galley), cursor_at_pointer);
            &&& range.primary == CharCursor {
                index: char_offset_base.saturating_add(end.index),
                prefer_next_row: end.prefer_next_row,
            }
            &&& range.secondary == CharCursor {
                index: char_offset_base.saturating_add(begin.index),
                prefer_next_row: begin.prefer_next_row,
            }
        },
{
    let row_start = galley_cursor_begin_of_row(galley, cursor_at_pointer);
    let row_end = galley_cursor_end_of_row(galley, cursor_at_pointer);
    CursorRange {
        primary: char_cursor_with_offset(row_end, char_offset_base),
        secondary: char_cursor_with_offset(row_start, char_offset_base),
    }
}

/// The click count after [`normalize_click_count`], or `None` for a galley
/// without rows, where there is no row to click at the end of.
pub fn click_count_at_pointer(galley: &egui::Galley, cursor_at_pointer: CharCursor, click_count: u32) -> (count: Option<u32>)
    ensures
        count is None <==> galley_rows(*galley).len() == 0,
        count is Some && rows_fit(galley_rows(*galley)) ==> count->0 == if cursor_at_pointer.index
            == row_end_caret(galley_rows(*galley), cursor_at_pointer).index {
            1
        } else {
            click_count
        },
{
    if galley_row_count(galley) == 0 {
        None
    } else {
        Some(normalize_click_count(galley, cursor_at_pointer, click_count))
    }
}

/// The row selection after [`line_selection_range`], or `None` for a galley
/// without rows.
pub fn row_selection_at_pointer(galley: &egui::Galley, char_offset_base: usize, cursor_at_pointer: CharCursor) -> (range: Option<CursorRange>)
    ensures
        range is None <==> galley_rows(*galley).len() == 0,
        range is Some && rows_fit(galley_rows(*galley)) ==> {
            let begin = row_begin_caret(galley_rows(*galley), cursor_at_pointer);
            let end = row_end_caret(galley_rows(*galley), cursor_at_pointer);
            &&& range->0.primary == CharCursor {
                index: char_offset_base.saturating_add(end.index),
                prefer_next_row: end.prefer_next_row,
            }
            &&& range->0.secondary == CharCursor {
                index: char_offset_base.saturating_add(begin.index),
                prefer_next_row: begin.prefer_next_row,
            }
        },
{
    if galley_row_count(galley) == 0 {
        None
    } else {
        Some(line_selection_range(galley, char_offset_base, cursor_at_pointer))
    }
}

} // verus!
