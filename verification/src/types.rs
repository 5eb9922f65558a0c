//! Cursor and edit-record types of the native editor.
use vstd::prelude::*;

verus! {

/// A caret between document characters; `prefer_next_row` picks the row
/// below when the position is a wrap point.
#[derive(Clone, Copy, Debug, PartialEq, Eq, Structural)]
pub struct CharCursor {
    pub index: usize,
    pub prefer_next_row: bool,
}

impl CharCursor {
    /// A caret at `index` that prefers the row above.
    pub fn new(index: usize) -> (cursor: Self)
        ensures
            cursor.index == index,
            !cursor.prefer_next_row,
    {
        CharCursor { index, prefer_next_row: false }
    }
}

/// A selection: the moving end (`primary`) and the anchored end (`secondary`).
#[derive(Clone, Copy, Debug, PartialEq, Eq, Structural)]
pub struct CursorRange {
    pub primary: CharCursor,
    pub secondary: CharCursor,
}

/// The smaller and the larger end of a selection.
pub open spec fn sorted_ends(range: CursorRange) -> (usize, usize) {
    if range.primary.index <= range.secondary.index {
        (range.primary.index, range.secondary.index)
    } else {
        (range.secondary.index, range.primary.index)
    }
}

impl CursorRange {
    /// A collapsed selection at `cursor`.
    pub fn one(cursor: CharCursor) -> (range: Self)
        ensures
            range.primary == cursor,
            range.secondary == cursor,
    {
        CursorRange { primary: cursor, secondary: cursor }
    }

    /// The selection `min..max` with the caret at `max`.
    pub fn two(min: usize, max: usize) -> (range: Self)
        ensures
            range.primary == (CharCursor { index: max, prefer_next_row: false }),
            range.secondary == (CharCursor { index: min, prefer_next_row: false }),
    {
        CursorRange { primary: CharCursor::new(max), secondary: CharCursor::new(min) }
    }

    /// Whether both ends are at the same character.
    pub fn is_empty(&self) -> (empty: bool)
        ensures
            empty == (self.primary.index == self.secondary.index),
    {
        self.primary.index == self.secondary.index
    }

    /// The two ends, smaller first.
    pub fn sorted_indices(&self) -> (ends: (usize, usize))
        ensures
            ends == sorted_ends(*self),
            ends.0 <= ends.1,
    {
        let a = self.primary.index;
        let b = self.secondary.index;
        if a <= b { (a, b) } else { (b, a) }
    }

    /// The selected character range, smaller end first.
    pub fn as_sorted_char_range(&self) -> (range: std::ops::Range<usize>)
        ensures
            range.start == sorted_ends(*self).0,
            range.end == sorted_ends(*self).1,
    {
        let (start, end) = self.sorted_indices();
        start..end
    }
}

/// The selected characters, or `None` when the selection is collapsed.
pub fn selection_char_range(cursor_range: &CursorRange) -> (range: Option<std::ops::Range<usize>>)
    ensures
        cursor_range.primary.index == cursor_range.secondary.index <==> range is None,
        range matches Some(r) ==> r.start == sorted_ends(*cursor_range).0 && r.end == sorted_ends(*cursor_range).1,
{
    if !cursor_range.is_empty() {
        Some(cursor_range.as_sorted_char_range())
    } else {
        None
    }
}

/// One text change: at `start_char`, `deleted_text` was replaced by `inserted_text`.
#[derive(Clone, Debug, PartialEq, Eq)]
pub struct EditOperation {
    pub start_char: usize,
    pub deleted_text: String,
    pub inserted_text: String,
}

/// An undoable step: the selection before and after, and its edits.
#[derive(Clone, Debug, PartialEq)]
pub struct OperationRecord {
    pub previous_selection: CursorRange,
    pub next_selection: CursorRange,
    pub edits: Vec<EditOperation>,
}

} // verus!

verus! {

impl CursorRange {
    /// A collapsed selection at `cursor`, as a value.
    pub open spec fn one_spec(cursor: CharCursor) -> CursorRange {
        CursorRange { primary: cursor, secondary: cursor }
    }
}

} // verus!

verus! {

impl CursorRange {
    /// The default selection: both ends at 0, preferring the row above.
    pub open spec fn default_spec() -> CursorRange {
        CursorRange {
            primary: CharCursor { index: 0, prefer_next_row: false },
            secondary: CharCursor { index: 0, prefer_next_row: false },
        }
    }
}

} // verus!

verus! {

impl Default for CharCursor {
    fn default() -> (cursor: Self)
        ensures
            cursor == (CharCursor { index: 0, prefer_next_row: false }),
    {
        CharCursor::new(0)
    }
}

impl Default for CursorRange {
    fn default() -> (range: Self)
        ensures
            range == CursorRange::default_spec(),
    {
        CursorRange::one(CharCursor::new(0))
    }
}

} // verus!
