//! Caret movement by keys: selection collapse, line and document movement.
use vstd::prelude::*;
use crate::piece_tree::{PieceTreeLite, line_index_at, line_start_of, line_end_of, newline_count};
use crate::types::{CharCursor, CursorRange, sorted_ends};
use crate::word_boundary::{find_word_boundary_left, find_word_boundary_right, lemma_word_boundary_left_not_after, word_boundary_left, word_boundary_right};

verus! {

/// The keys whose handling the editor logic inspects.
#[derive(Clone, Copy, Debug, PartialEq, Eq, Structural)]
pub enum Key {
    ArrowLeft,
    ArrowRight,
    ArrowUp,
    ArrowDown,
    Home,
    End,
    PageUp,
    PageDown,
    Enter,
    Tab,
    Backspace,
    Delete,
    Insert,
    Escape,
    F3,
    Num1,
    Num2,
    Num3,
    Num4,
    A,
    C,
    R,
    W,
    Y,
    Z,
    Other,
}

/// Modifier keys held during a key press; `command` is Ctrl, or Cmd on macOS.
#[derive(Clone, Copy, Debug, Default, PartialEq, Eq, Structural)]
pub struct Modifiers {
    pub alt: bool,
    pub ctrl: bool,
    pub shift: bool,
    pub mac_cmd: bool,
    pub command: bool,
}

/// Alt or Ctrl moves by words.
pub open spec fn wordwise(modifiers: Modifiers) -> bool {
    modifiers.alt || modifiers.ctrl
}

/// Whether the modifiers ask for word-wise movement.
pub fn is_wordwise_movement(modifiers: &Modifiers) -> (r: bool)
    ensures
        r == wordwise(*modifiers),
{
    modifiers.alt || modifiers.ctrl
}

/// Where a plain Left or Right collapses a non-empty selection: its start or its end.
pub open spec fn collapse_target(cursor: CursorRange, key: Key, modifiers: Modifiers) -> Option<usize> {
    if cursor.primary.index == cursor.secondary.index
        || (key != Key::ArrowLeft && key != Key::ArrowRight)
        || wordwise(modifiers)
        || modifiers.command
    {
        None
    } else if key == Key::ArrowLeft {
        Some(sorted_ends(cursor).0)
    } else {
        Some(sorted_ends(cursor).1)
    }
}

/// Target when a plain Left/Right collapses a selection, if it does.
pub fn collapsed_selection_target(cursor: &CursorRange, key: Key, modifiers: &Modifiers) -> (target: Option<usize>)
    ensures
        target == collapse_target(*cursor, key, *modifiers),
{
    if cursor.is_empty()
        || (key != Key::ArrowLeft && key != Key::ArrowRight)
        || is_wordwise_movement(modifiers)
        || modifiers.command
    {
        return None;
    }
    let (start, end) = cursor.sorted_indices();
    Some(if key == Key::ArrowLeft { start } else { end })
}

/// Selection after the caret moved to `new_primary`: Shift extends from the
/// anchor; a plain Left/Right collapses a selection to its edge; otherwise
/// the selection collapses onto the new caret.
pub open spec fn finalized_movement(cursor: CursorRange, key: Key, modifiers: Modifiers, new_primary: CharCursor) -> CursorRange {
    if modifiers.shift {
        CursorRange { primary: new_primary, secondary: cursor.secondary }
    } else {
        match collapse_target(cursor, key, modifiers) {
            Some(index) => CursorRange::one_spec(CharCursor { index, prefer_next_row: false }),
            None => CursorRange::one_spec(new_primary),
        }
    }
}

/// Selection after a movement: Shift extends from the anchor; a plain
/// Left/Right collapses a selection to its edge; otherwise the caret moves.
pub fn finalize_cursor_movement(
    cursor: &CursorRange,
    key: Key,
    modifiers: &Modifiers,
    new_primary: CharCursor,
) -> (range: CursorRange)
    ensures
        range == finalized_movement(*cursor, key, *modifiers, new_primary),
{
    if modifiers.shift {
        return CursorRange { primary: new_primary, secondary: cursor.secondary };
    }
    if let Some(index) = collapsed_selection_target(cursor, key, modifiers) {
        return CursorRange::one(CharCursor::new(index));
    }
    CursorRange::one(new_primary)
}

/// End of line content: the line's end without its trailing LF, then without a CR before it.
pub open spec fn content_end(s: Seq<char>, start_char: int, char_len: int) -> int {
    let raw = if start_char + char_len > usize::MAX { usize::MAX as int } else { start_char + char_len };
    let e0 = if raw < s.len() { raw } else { s.len() as int };
    let e1 = if e0 > start_char && s[e0 - 1] == '\n' { e0 - 1 } else { e0 };
    if e1 > start_char && s[e1 - 1] == '\r' { e1 - 1 } else { e1 }
}

/// End of the content of the line that starts at `start_char` and is `char_len` long.
pub fn line_content_end(start_char: usize, char_len: usize, piece_tree: &PieceTreeLite) -> (end: usize)
    ensures
        end == content_end(piece_tree@, start_char as int, char_len as int),
{
    let raw = start_char.saturating_add(char_len);
    let len = piece_tree.len_chars();
    let mut end = if raw < len { raw } else { len };
    if end > start_char && piece_tree.char_at(end - 1) == Some('\n') {
        end = end - 1;
    }
    if end > start_char && piece_tree.char_at(end - 1) == Some('\r') {
        end = end - 1;
    }
    end
}

/// Start of the line holding `current_index`.
pub fn current_line_start(current_index: usize, piece_tree: &PieceTreeLite) -> (start: usize)
    ensures
        start == line_start_of(piece_tree@, line_index_at(piece_tree@, current_index as int)),
{
    let line = piece_tree.line_index_at_offset(current_index);
    piece_tree.line_info(line).start_char
}

/// End of the content (before its line ending) of the line holding
/// `current_index`, at most `total_chars`.
pub fn current_line_content_end(current_index: usize, total_chars: usize, piece_tree: &PieceTreeLite) -> (end: usize)
    ensures
        ({
            let line = line_index_at(piece_tree@, current_index as int);
            let start = line_start_of(piece_tree@, line);
            let e = content_end(piece_tree@, start, line_end_of(piece_tree@, line) - start);
            end == if e < total_chars { e } else { total_chars as int }
        }),
{
    let line = piece_tree.line_index_at_offset(current_index);
    let info = piece_tree.line_info(line);
    let end = line_content_end(info.start_char, info.char_len, piece_tree);
    if end < total_chars { end } else { total_chars }
}

/// `line + delta`, saturating at 0 and at the largest usize.
pub open spec fn shifted_line(line: int, delta: int) -> int {
    if line + delta < 0 {
        0
    } else if line + delta > usize::MAX {
        usize::MAX as int
    } else {
        line + delta
    }
}

/// Caret `line_delta` document lines away, keeping the column where the
/// target line is long enough; `None` when no line change results.
pub open spec fn line_move_target(s: Seq<char>, current_index: int, line_delta: int, total_chars: int) -> Option<int> {
    if line_delta == 0 {
        None
    } else {
        let current_line = line_index_at(s, if current_index < total_chars { current_index } else { total_chars });
        let shifted = shifted_line(current_line, line_delta);
        let target_line = if shifted < newline_count(s) { shifted } else { newline_count(s) as int };
        if target_line == current_line {
            None
        } else {
            let current_start = line_start_of(s, current_line);
            let target_start = line_start_of(s, target_line);
            let target_end = content_end(s, target_start, line_end_of(s, target_line) - target_start);
            let column = if current_index > current_start { current_index - current_start } else { 0 };
            let moved = if target_start + column > usize::MAX { usize::MAX as int } else { target_start + column };
            let capped = if moved < target_end { moved } else { target_end };
            Some(if capped < total_chars { capped } else { total_chars })
        }
    }
}

/// Caret moved by whole document lines (not wrapped rows), with the column
/// kept where possible.
#[verifier::rlimit(30)]
pub fn logical_line_movement_target(
    current_index: usize,
    line_delta: isize,
    total_chars: usize,
    piece_tree: &PieceTreeLite,
) -> (target: Option<CharCursor>)
    ensures
        match line_move_target(piece_tree@, current_index as int, line_delta as int, total_chars as int) {
            Some(index) => target is Some && target->0.index == index && !target->0.prefer_next_row,
            None => target is None,
        },
{
    if line_delta == 0 {
        return None;
    }
    let clamped = if current_index < total_chars { current_index } else { total_chars };
    let current_line = piece_tree.line_index_at_offset(clamped);
    let shifted = if line_delta >= 0 {
        current_line.saturating_add(line_delta as usize)
    } else {
        let magnitude = (-(line_delta + 1)) as usize + 1;
        current_line.saturating_sub(magnitude)
    };
    let newlines = piece_tree.metrics().newlines;
    let target_line = if shifted < newlines { shifted } else { newlines };
    if target_line == current_line {
        return None;
    }
    let current_start = piece_tree.line_info(current_line).start_char;
    let target_info = piece_tree.line_info(target_line);
    let target_end = line_content_end(target_info.start_char, target_info.char_len, piece_tree);
    let column = current_index.saturating_sub(current_start);
    let moved = target_info.start_char.saturating_add(column);
    let capped = if moved < target_end { moved } else { target_end };
    let result = if capped < total_chars { capped } else { total_chars };
    proof {
        let s = piece_tree@;
        let cl = line_index_at(s, if current_index < total_chars { current_index as int } else { total_chars as int });
        assert(cl == current_line);
        assert(shifted_line(cl, line_delta as int) == shifted);
        assert(target_line == (if shifted < newline_count(s) { shifted as int } else { newline_count(s) as int }));
        assert(line_start_of(s, cl) == current_start);
        assert(line_start_of(s, target_line as int) == target_info.start_char);
        assert(line_end_of(s, target_line as int) - line_start_of(s, target_line as int) == target_info.char_len);
    }
    Some(CharCursor::new(result))
}

/// Movement target for keys that move through the whole document (lines,
/// line start and end, document start and end, pages of lines).
pub open spec fn document_move_target(
    s: Seq<char>,
    current_index: int,
    key: Key,
    modifiers: Modifiers,
    page_jump_rows: int,
    total_chars: int,
) -> Option<int> {
    let page = if page_jump_rows > 1 { page_jump_rows } else { 1 };
    let line = line_index_at(s, current_index);
    let start = line_start_of(s, line);
    let content = content_end(s, start, line_end_of(s, line) - start);
    match key {
        Key::ArrowUp => if modifiers.command { None } else { line_move_target(s, current_index, -1, total_chars) },
        Key::ArrowDown => if modifiers.command { None } else { line_move_target(s, current_index, 1, total_chars) },
        Key::Home => if modifiers.command { Some(0) } else { Some(start) },
        Key::End => if modifiers.command {
            Some(total_chars)
        } else {
            Some(if content < total_chars { content } else { total_chars })
        },
        Key::PageUp => line_move_target(s, current_index, -page, total_chars),
        Key::PageDown => line_move_target(s, current_index, page, total_chars),
        _ => None,
    }
}

/// Targets for Up/Down, Home/End and PageUp/PageDown, computed on document
/// lines rather than on the painted rows.
pub fn full_document_movement_target(
    current_index: usize,
    key: Key,
    modifiers: &Modifiers,
    page_jump_rows: usize,
    total_chars: usize,
    piece_tree: &PieceTreeLite,
) -> (target: Option<CharCursor>)
    requires
        page_jump_rows <= isize::MAX,
    ensures
        match document_move_target(piece_tree@, current_index as int, key, *modifiers,
            page_jump_rows as int, total_chars as int) {
            Some(index) => target is Some && target->0.index == index && !target->0.prefer_next_row,
            None => target is None,
        },
{
    let page: usize = if page_jump_rows > 1 { page_jump_rows } else { 1 };
    match key {
        Key::ArrowUp => if modifiers.command {
            None
        } else {
            logical_line_movement_target(current_index, -1, total_chars, piece_tree)
        },
        Key::ArrowDown => if modifiers.command {
            None
        } else {
            logical_line_movement_target(current_index, 1, total_chars, piece_tree)
        },
        Key::Home => if modifiers.command {
            Some(CharCursor::new(0))
        } else {
            Some(CharCursor::new(current_line_start(current_index, piece_tree)))
        },
        Key::End => if modifiers.command {
            Some(CharCursor::new(total_chars))
        } else {
            Some(CharCursor::new(current_line_content_end(current_index, total_chars, piece_tree)))
        },
        Key::PageUp => logical_line_movement_target(current_index, -(page as isize), total_chars, piece_tree),
        Key::PageDown => logical_line_movement_target(current_index, page as isize, total_chars, piece_tree),
        _ => None,
    }
}

/// Painted caret for document position `index` in a slice that starts at
/// `char_offset_base` and holds `slice_chars` characters.
pub fn local_cursor_for_document_index(
    index: usize,
    char_offset_base: usize,
    slice_chars: usize,
    display_map: Option<&crate::display_text::DisplayTextMap>,
) -> (local: usize)
    ensures
        ({
            let doc_local = if index.saturating_sub(char_offset_base) < slice_chars {
                index.saturating_sub(char_offset_base)
            } else {
                slice_chars
            };
            local == match display_map {
                Some(m) => crate::display_text::lookup_or_last(m@.doc_to_display, doc_local as int),
                None => doc_local,
            }
        }),
{
    let shifted = index.saturating_sub(char_offset_base);
    let local = if shifted < slice_chars { shifted } else { slice_chars };
    match display_map {
        Some(map) => map.doc_to_display_cursor(local),
        None => local,
    }
}

} // verus!

verus! {

#[verifier::external_type_specification]
#[verifier::external_body]
pub struct ExGalley(egui::Galley);

/// `Galley::cursor_left_one_character`: the caret one character to the left,
/// preferring the next row; at index 0 it stays at 0 with no preference.
#[verifier::external_body]
fn galley_cursor_left(galley: &egui::Galley, cursor: CharCursor) -> (moved: CharCursor)
    ensures
        moved == if cursor.index == 0 {
            CharCursor { index: 0, prefer_next_row: false }
        } else {
            CharCursor { index: (cursor.index - 1) as usize, prefer_next_row: true }
        },
{
    let moved = galley.cursor_left_one_character(&egui::text::CCursor {
        index: egui::text::CharIndex(cursor.index),
        prefer_next_row: cursor.prefer_next_row,
    });
    CharCursor { index: moved.index.0, prefer_next_row: moved.prefer_next_row }
}

/// The rows a galley holds, in order: for each laid-out row, how many
/// characters it shows (a line feed that ends it not counted) and whether a
/// line feed ends it.
pub uninterp spec fn galley_rows(galley: egui::Galley) -> Seq<(usize, bool)>;

/// Character index at which row `r` starts: the characters of the rows
/// before it, each with its line feed.
pub open spec fn row_start(rows: Seq<(usize, bool)>, r: int) -> int
    decreases r,
{
    if r <= 0 || r > rows.len() {
        0
    } else {
        row_start(rows, r - 1) + rows[r - 1].0 + if rows[r - 1].1 { 1int } else { 0int }
    }
}

/// Index one past the last character of the laid-out text.
pub open spec fn text_end(rows: Seq<(usize, bool)>) -> int {
    row_start(rows, rows.len() as int)
}

/// Whether the laid-out text's length fits a `usize`.
pub open spec fn rows_fit(rows: Seq<(usize, bool)>) -> bool {
    text_end(rows) <= usize::MAX
}

/// The row, from row `j` on, that holds the caret: the first whose
/// characters (and the position after them) include it, except that a caret
/// preferring the next row, at the end of a row no line feed ends, belongs to
/// the row after; a caret past every row belongs to the last one.
pub open spec fn layout_row_from(rows: Seq<(usize, bool)>, caret: CharCursor, j: int) -> int
    decreases rows.len() - j,
{
    if j < 0 || j >= rows.len() {
        if rows.len() > 0 { rows.len() - 1 } else { 0 }
    } else if row_start(rows, j) <= caret.index <= row_start(rows, j) + rows[j].0
        && !(caret.prefer_next_row && !rows[j].1 && caret.index - row_start(rows, j) >= rows[j].0) {
        j
    } else {
        layout_row_from(rows, caret, j + 1)
    }
}

/// The row that holds the caret.
pub open spec fn layout_row(rows: Seq<(usize, bool)>, caret: CharCursor) -> int {
    layout_row_from(rows, caret, 0)
}

/// Whether `index` lies on row `r`: from its start to just after its last
/// character.
pub open spec fn on_row(rows: Seq<(usize, bool)>, r: int, index: int) -> bool {
    row_start(rows, r) <= index <= row_start(rows, r) + rows[r].0
}

/// `clamped` is `caret` clamped onto the rows: never after the caret nor
/// past the end, and the caret itself when it lies before the end.
pub open spec fn clamped_to(rows: Seq<(usize, bool)>, caret: CharCursor, clamped: CharCursor) -> bool {
    &&& clamped.index <= caret.index
    &&& clamped.index <= text_end(rows)
    &&& caret.index < text_end(rows) ==> clamped.index == caret.index
}

/// One row up from `caret`: from the first row to the start of the text,
/// else onto the row above (where on it depends on glyph positions).
pub open spec fn row_up(rows: Seq<(usize, bool)>, caret: CharCursor, moved: CharCursor) -> bool {
    let r = layout_row(rows, caret);
    &&& moved.index <= caret.index
    &&& rows_fit(rows) ==> if r == 0 {
        moved == CharCursor { index: 0, prefer_next_row: false }
    } else {
        on_row(rows, r - 1, moved.index as int)
    }
}

/// One row down from `caret`: onto the row below (where on it depends on
/// glyph positions), or from the last row to the end of the text.
pub open spec fn row_down(rows: Seq<(usize, bool)>, caret: CharCursor, moved: CharCursor) -> bool {
    let r = layout_row(rows, caret);
    rows_fit(rows) ==> if r + 1 < rows.len() {
        on_row(rows, r + 1, moved.index as int)
    } else if rows.len() == 0 {
        moved == CharCursor { index: 0, prefer_next_row: false }
    } else {
        moved == CharCursor { index: text_end(rows) as usize, prefer_next_row: true }
    }
}

/// `Galley::cursor_right_one_character`: the caret one character to the
/// right, capped at the end of the laid-out text (`Galley::end`), preferring
/// the next row.
#[verifier::external_body]
fn galley_cursor_right(galley: &egui::Galley, cursor: CharCursor) -> (moved: CharCursor)
    requires
        cursor.index < usize::MAX,
    ensures
        moved == (CharCursor {
            index: (if cursor.index + 1 < text_end(galley_rows(*galley)) {
                cursor.index + 1
            } else {
                text_end(galley_rows(*galley))
            }) as usize,
            prefer_next_row: true,
        }),
{
    let moved = galley.cursor_right_one_character(&egui::text::CCursor {
        index: egui::text::CharIndex(cursor.index),
        prefer_next_row: cursor.prefer_next_row,
    });
    CharCursor { index: moved.index.0, prefer_next_row: moved.prefer_next_row }
}

/// `Galley::clamp_cursor`: the caret mapped to a row and column of the
/// layout and back. Its source keeps a caret before the end of the text
/// where it is, and brings one at or past the end to the last position of
/// the last row; the row preference it gives is not stated.
#[verifier::external_body]
fn galley_clamp_cursor(galley: &egui::Galley, cursor: CharCursor) -> (clamped: CharCursor)
    ensures
        clamped_to(galley_rows(*galley), cursor, clamped),
{
    let clamped = galley.clamp_cursor(&egui::text::CCursor {
        index: egui::text::CharIndex(cursor.index),
        prefer_next_row: cursor.prefer_next_row,
    });
    CharCursor { index: clamped.index.0, prefer_next_row: clamped.prefer_next_row }
}

/// `Galley::cursor_up_one_row` with no remembered x position: from the row
/// holding the caret, the start of the text when that is the first row, else
/// a position on the row above; which one depends on glyph positions and is
/// not stated.
#[verifier::external_body]
fn galley_cursor_up_one_row(galley: &egui::Galley, cursor: CharCursor) -> (moved: CharCursor)
    ensures
        row_up(galley_rows(*galley), cursor, moved),
{
    let (moved, _) = galley.cursor_up_one_row(&egui::text::CCursor {
        index: egui::text::CharIndex(cursor.index),
        prefer_next_row: cursor.prefer_next_row,
    }, None);
    CharCursor { index: moved.index.0, prefer_next_row: moved.prefer_next_row }
}

/// `Galley::cursor_down_one_row` with no remembered x position: from the row
/// holding the caret, a position on the row below, or the end of the text
/// (`Galley::end`) from the last row; where on the row below depends on
/// glyph positions and is not stated.
#[verifier::external_body]
fn galley_cursor_down_one_row(galley: &egui::Galley, cursor: CharCursor) -> (moved: CharCursor)
    ensures
        row_down(galley_rows(*galley), cursor, moved),
{
    let (moved, _) = galley.cursor_down_one_row(&egui::text::CCursor {
        index: egui::text::CharIndex(cursor.index),
        prefer_next_row: cursor.prefer_next_row,
    }, None);
    CharCursor { index: moved.index.0, prefer_next_row: moved.prefer_next_row }
}

/// How many rows a galley holds (`Galley::rows`).
#[verifier::external_body]
pub(crate) fn galley_row_count(galley: &egui::Galley) -> (count: usize)
    ensures
        count == galley_rows(*galley).len(),
{
    galley.rows.len()
}

/// The caret at the start of the row holding `caret`: the row's first
/// position, preferring that row unless it is empty; with no rows, 0.
pub open spec fn row_begin_caret(rows: Seq<(usize, bool)>, caret: CharCursor) -> CharCursor {
    let r = layout_row(rows, caret);
    if rows.len() == 0 {
        CharCursor { index: 0, prefer_next_row: false }
    } else {
        CharCursor { index: row_start(rows, r) as usize, prefer_next_row: rows[r].0 > 0 }
    }
}

/// The caret at the end of the row holding `caret`, before a line feed that
/// ends it.
pub open spec fn row_end_caret(rows: Seq<(usize, bool)>, caret: CharCursor) -> CharCursor {
    let r = layout_row(rows, caret);
    CharCursor { index: (row_start(rows, r) + rows[r].0) as usize, prefer_next_row: false }
}

/// `Galley::cursor_begin_of_row`: the start of the row holding the caret
/// (its source maps the caret to a row and takes column 0).
#[verifier::external_body]
pub(crate) fn galley_cursor_begin_of_row(galley: &egui::Galley, cursor: CharCursor) -> (begin: CharCursor)
    ensures
        rows_fit(galley_rows(*galley)) ==> begin == row_begin_caret(galley_rows(*galley), cursor),
{
    let begin = galley.cursor_begin_of_row(&egui::text::CCursor {
        index: egui::text::CharIndex(cursor.index),
        prefer_next_row: cursor.prefer_next_row,
    });
    CharCursor { index: begin.index.0, prefer_next_row: begin.prefer_next_row }
}

/// `Galley::cursor_end_of_row`: the end of the row holding the caret, before
/// a line feed that ends it. Its source indexes the rows, so it panics on a
/// galley without rows; that input is left out.
#[verifier::external_body]
pub(crate) fn galley_cursor_end_of_row(galley: &egui::Galley, cursor: CharCursor) -> (end: CharCursor)
    requires
        galley_rows(*galley).len() > 0,
    ensures
        rows_fit(galley_rows(*galley)) ==> end == row_end_caret(galley_rows(*galley), cursor),
{
    let end = galley.cursor_end_of_row(&egui::text::CCursor {
        index: egui::text::CharIndex(cursor.index),
        prefer_next_row: cursor.prefer_next_row,
    });
    CharCursor { index: end.index.0, prefer_next_row: end.prefer_next_row }
}

/// Consecutive carets, each one row up (or down) from the one before.
pub open spec fn row_walk(rows: Seq<(usize, bool)>, steps: Seq<CharCursor>, downward: bool) -> bool {
    forall|i: int| #![trigger steps[i]] 0 <= i < steps.len() - 1 ==> (if downward {
        row_down(rows, steps[i], steps[i + 1])
    } else {
        row_up(rows, steps[i], steps[i + 1])
    })
}

/// `to` is `page_jump_rows` rows (at least one) up or down from `from`, one
/// row at a time.
pub open spec fn page_walk(rows: Seq<(usize, bool)>, from: CharCursor, to: CharCursor, page_jump_rows: int, downward: bool) -> bool {
    exists|steps: Seq<CharCursor>| #[trigger] row_walk(rows, steps, downward)
        && steps.len() == (if page_jump_rows > 1 { page_jump_rows } else { 1 }) + 1
        && steps[0] == from && steps.last() == to
}

proof fn lemma_row_start_monotone(rows: Seq<(usize, bool)>, a: int, b: int)
    requires
        0 <= a <= b <= rows.len(),
    ensures
        row_start(rows, a) <= row_start(rows, b),
    decreases b,
{
    if a < b {
        lemma_row_start_monotone(rows, a, b - 1);
    }
}

proof fn lemma_layout_row_found(rows: Seq<(usize, bool)>, caret: CharCursor, j: int)
    requires
        0 <= j <= rows.len(),
    ensures
        layout_row_from(rows, caret, j) + 1 < rows.len() ==> caret.index <= row_start(rows, layout_row_from(rows, caret, j)) + rows[layout_row_from(rows, caret, j)].0,
        0 <= layout_row_from(rows, caret, j),
        rows.len() > 0 ==> layout_row_from(rows, caret, j) < rows.len(),
    decreases rows.len() - j,
{
    if j < rows.len() {
        lemma_layout_row_found(rows, caret, j + 1);
    }
}

/// A row down never moves a caret that lies within the text backward, nor
/// past the end.
proof fn lemma_row_down_forward(rows: Seq<(usize, bool)>, caret: CharCursor, moved: CharCursor)
    requires
        rows_fit(rows),
        caret.index <= text_end(rows),
        row_down(rows, caret, moved),
    ensures
        caret.index <= moved.index <= text_end(rows),
{
    let r = layout_row(rows, caret);
    lemma_layout_row_found(rows, caret, 0);
    if r + 1 < rows.len() {
        lemma_row_start_monotone(rows, r + 2, rows.len() as int);
        assert(row_start(rows, r + 1) == row_start(rows, r) + rows[r].0 + if rows[r].1 { 1int } else { 0int });
        assert(row_start(rows, r + 2) == row_start(rows, r + 1) + rows[r + 1].0 + if rows[r + 1].1 { 1int } else { 0int });
    }
}

/// The caret `page_jump_rows` painted rows up or down (at least one row),
/// one row at a time. Moving up never moves the caret forward; moving down
/// never moves a caret within the text backward nor past the end.
pub fn move_by_page_rows(galley: &egui::Galley, cursor: CharCursor, page_jump_rows: usize, downward: bool) -> (moved: CharCursor)
    ensures
        page_walk(galley_rows(*galley), cursor, moved, page_jump_rows as int, downward),
        !downward ==> moved.index <= cursor.index,
        downward && rows_fit(galley_rows(*galley)) && cursor.index <= text_end(galley_rows(*galley))
            ==> cursor.index <= moved.index <= text_end(galley_rows(*galley)),
{
    let ghost rows_of = galley_rows(*galley);
    let rows: usize = if page_jump_rows > 1 { page_jump_rows } else { 1 };
    let mut moved = cursor;
    let mut i: usize = 0;
    let ghost mut steps: Seq<CharCursor> = seq![cursor];
    while i < rows
        invariant
            i <= rows,
            rows_of == galley_rows(*galley),
            steps.len() == i + 1,
            steps[0] == cursor,
            steps.last() == moved,
            row_walk(rows_of, steps, downward),
            !downward ==> moved.index <= cursor.index,
            downward && rows_fit(rows_of) && cursor.index <= text_end(rows_of)
                ==> cursor.index <= moved.index <= text_end(rows_of),
        decreases rows - i,
    {
        let before = moved;
        moved = if downward { galley_cursor_down_one_row(galley, moved) } else { galley_cursor_up_one_row(galley, moved) };
        proof {
            let previous = steps;
            steps = steps.push(moved);
            assert forall|k: int| #![trigger steps[k]] 0 <= k < steps.len() - 1 implies (if downward {
                row_down(rows_of, steps[k], steps[k + 1])
            } else {
                row_up(rows_of, steps[k], steps[k + 1])
            }) by {
                if k < previous.len() - 1 {
                    assert(steps[k] == previous[k] && steps[k + 1] == previous[k + 1]);
                } else {
                    assert(steps[k] == before && steps[k + 1] == moved);
                }
            }
            if downward && rows_fit(rows_of) && cursor.index <= text_end(rows_of) {
                lemma_row_down_forward(rows_of, before, moved);
            }
        }
        i = i + 1;
    }
    proof {
        assert(row_walk(rows_of, steps, downward));
    }
    moved
}

/// A page of painted rows up or down, for PageUp and PageDown only.
pub fn page_movement_target(key: Key, galley: &egui::Galley, cursor: CharCursor, page_jump_rows: usize) -> (target: Option<CharCursor>)
    ensures
        target is Some <==> (key == Key::PageUp || key == Key::PageDown),
        target is Some ==> page_walk(galley_rows(*galley), cursor, target->0, page_jump_rows as int,
            key == Key::PageDown),
        key == Key::PageUp && target is Some ==> target->0.index <= cursor.index,
        key == Key::PageDown && target is Some && rows_fit(galley_rows(*galley))
            && cursor.index <= text_end(galley_rows(*galley))
            ==> cursor.index <= target->0.index <= text_end(galley_rows(*galley)),
{
    match key {
        Key::PageUp => Some(move_by_page_rows(galley, cursor, page_jump_rows, false)),
        Key::PageDown => Some(move_by_page_rows(galley, cursor, page_jump_rows, true)),
        _ => None,
    }
}

/// The document caret for a caret `clamped` of the laid-out slice: its index
/// mapped back through the display map, offset by the slice start and capped
/// at the document's length; its row preference kept.
pub open spec fn document_caret(
    clamped: CharCursor,
    total_chars: usize,
    char_offset_base: usize,
    display_map: Option<&crate::display_text::DisplayTextMap>,
) -> CharCursor {
    let local = match display_map {
        Some(m) => crate::display_text::lookup_or_last(m@.display_to_doc, clamped.index as int),
        None => clamped.index,
    };
    CharCursor {
        index: if char_offset_base + local < total_chars { (char_offset_base + local) as usize } else { total_chars },
        prefer_next_row: clamped.prefer_next_row,
    }
}

/// Document caret for a painted caret of the slice: clamped onto the layout
/// (never past the painted caret), mapped back through the display map,
/// offset by the slice start and capped at the document's length.
pub fn clamp_char_cursor(
    galley: &egui::Galley,
    total_chars: usize,
    cursor: CharCursor,
    char_offset_base: usize,
    display_map: Option<&crate::display_text::DisplayTextMap>,
) -> (doc: CharCursor)
    ensures
        doc.index <= total_chars,
        exists|clamped: CharCursor| clamped_to(galley_rows(*galley), cursor, clamped)
            && doc == #[trigger] document_caret(clamped, total_chars, char_offset_base, display_map),
{
    let clamped = galley_clamp_cursor(galley, cursor);
    let local_index = match display_map {
        Some(map) => map.display_to_doc_cursor(clamped.index),
        None => clamped.index,
    };
    let shifted = char_offset_base.saturating_add(local_index);
    let doc = CharCursor {
        index: if shifted < total_chars { shifted } else { total_chars },
        prefer_next_row: clamped.prefer_next_row,
    };
    assert(doc == document_caret(clamped, total_chars, char_offset_base, display_map));
    doc
}

/// What the left and right arrows aim at, as a painted caret of the slice:
/// the next word boundary (mapped into the slice) when moving word-wise,
/// else one character along the laid-out text.
pub fn horizontal_movement_target(
    current_index: usize,
    char_offset_base: usize,
    slice_chars: usize,
    key: Key,
    modifiers: &Modifiers,
    galley: &egui::Galley,
    egui_cursor: CharCursor,
    piece_tree: &PieceTreeLite,
    display_map: Option<&crate::display_text::DisplayTextMap>,
) -> (target: Option<CharCursor>)
    ensures
        target is Some <==> (key == Key::ArrowLeft || key == Key::ArrowRight),
        key == Key::ArrowLeft && wordwise(*modifiers) ==> target == Some(CharCursor {
            index: painted_index(word_boundary_left(piece_tree@, current_index as int) as usize,
                char_offset_base, slice_chars, display_map),
            prefer_next_row: false,
        }),
        key == Key::ArrowRight && wordwise(*modifiers) ==> target == Some(CharCursor {
            index: painted_index(word_boundary_right(piece_tree@, current_index as int) as usize,
                char_offset_base, slice_chars, display_map),
            prefer_next_row: false,
        }),
        key == Key::ArrowLeft && !wordwise(*modifiers) ==> target == Some(
            if egui_cursor.index == 0 {
                CharCursor { index: 0, prefer_next_row: false }
            } else {
                CharCursor { index: (egui_cursor.index - 1) as usize, prefer_next_row: true }
            }),
        (key == Key::ArrowLeft || key == Key::ArrowRight) ==> target is Some
            && arrow_target(piece_tree@, galley_rows(*galley), current_index, key, *modifiers, char_offset_base,
                slice_chars, display_map, egui_cursor, target->0),
{
    match key {
        Key::ArrowLeft => if is_wordwise_movement(modifiers) {
            let boundary = find_word_boundary_left(piece_tree, current_index);
            Some(CharCursor::new(local_cursor_for_document_index(boundary, char_offset_base, slice_chars, display_map)))
        } else {
            Some(galley_cursor_left(galley, egui_cursor))
        },
        Key::ArrowRight => if is_wordwise_movement(modifiers) {
            let boundary = find_word_boundary_right(piece_tree, current_index);
            Some(CharCursor::new(local_cursor_for_document_index(boundary, char_offset_base, slice_chars, display_map)))
        } else if egui_cursor.index < usize::MAX {
            Some(galley_cursor_right(galley, egui_cursor))
        } else {
            Some(egui_cursor)
        },
        _ => None,
    }
}

/// Painted index, in a slice starting at `char_offset_base` and holding
/// `slice_chars` characters, of document position `index`.
pub open spec fn painted_index(
    index: usize,
    char_offset_base: usize,
    slice_chars: usize,
    display_map: Option<&crate::display_text::DisplayTextMap>,
) -> usize {
    let doc_local = if index.saturating_sub(char_offset_base) < slice_chars {
        index.saturating_sub(char_offset_base)
    } else {
        slice_chars
    };
    match display_map {
        Some(m) => crate::display_text::lookup_or_last(m@.doc_to_display, doc_local as int) as usize,
        None => doc_local,
    }
}

/// The painted caret of the slice for the document caret `primary`: its
/// index mapped into the slice and through the display map, its row
/// preference kept.
pub open spec fn painted_caret(
    primary: CharCursor,
    char_offset_base: usize,
    slice_chars: usize,
    display_map: Option<&crate::display_text::DisplayTextMap>,
) -> CharCursor {
    CharCursor {
        index: painted_index(primary.index, char_offset_base, slice_chars, display_map),
        prefer_next_row: primary.prefer_next_row,
    }
}

/// Where Left or Right aims from `start`, a caret of the laid-out slice with
/// rows `rows`: the word boundary before or after document position
/// `current_index`, as a painted caret, when moving word-wise; else one
/// character left (the start stays put) or one character right, stopping at
/// the end of the laid-out text, preferring the next row.
pub open spec fn arrow_target(
    s: Seq<char>,
    rows: Seq<(usize, bool)>,
    current_index: usize,
    key: Key,
    modifiers: Modifiers,
    char_offset_base: usize,
    slice_chars: usize,
    display_map: Option<&crate::display_text::DisplayTextMap>,
    start: CharCursor,
    target: CharCursor,
) -> bool {
    if wordwise(modifiers) {
        let boundary = if key == Key::ArrowLeft {
            word_boundary_left(s, current_index as int)
        } else {
            word_boundary_right(s, current_index as int)
        };
        target == CharCursor {
            index: painted_index(boundary as usize, char_offset_base, slice_chars, display_map),
            prefer_next_row: false,
        }
    } else if key == Key::ArrowLeft {
        target == if start.index == 0 {
            CharCursor { index: 0, prefer_next_row: false }
        } else {
            CharCursor { index: (start.index - 1) as usize, prefer_next_row: true }
        }
    } else if start.index < usize::MAX {
        target == CharCursor {
            index: (if start.index + 1 < text_end(rows) { start.index + 1 } else { text_end(rows) }) as usize,
            prefer_next_row: true,
        }
    } else {
        target == start
    }
}

/// The new document caret `new_primary` for a move through the laid-out
/// slice with rows `rows`: the painted caret of the selection's primary end
/// is clamped onto the rows, the key aims from there ([`laid_out_aim`]), the
/// aim is clamped onto the rows again and mapped back to the document.
pub open spec fn laid_out_move(
    cursor: CursorRange,
    key: Key,
    modifiers: Modifiers,
    s: Seq<char>,
    rows: Seq<(usize, bool)>,
    page_jump_rows: int,
    total: usize,
    char_offset_base: usize,
    slice_chars: usize,
    display_map: Option<&crate::display_text::DisplayTextMap>,
    new_primary: CharCursor,
) -> bool {
    exists|start: CharCursor, target: CharCursor, clamped: CharCursor|
        #![trigger laid_out_aim(s, rows, cursor, key, modifiers, page_jump_rows, char_offset_base, slice_chars, display_map, start, target), document_caret(clamped, total, char_offset_base, display_map)]
        laid_out_aim(s, rows, cursor, key, modifiers, page_jump_rows, char_offset_base, slice_chars, display_map,
            start, target)
        && clamped_to(rows, target, clamped)
        && new_primary == document_caret(clamped, total, char_offset_base, display_map)
}

/// The first two steps of [`laid_out_move`]: `start` is the painted caret of
/// the selection's primary end clamped onto the rows, and `target` what the
/// key aims at from it: [`arrow_target`] for Left/Right, `page_jump_rows`
/// rows up or down for PageUp/PageDown.
pub open spec fn laid_out_aim(
    s: Seq<char>,
    rows: Seq<(usize, bool)>,
    cursor: CursorRange,
    key: Key,
    modifiers: Modifiers,
    page_jump_rows: int,
    char_offset_base: usize,
    slice_chars: usize,
    display_map: Option<&crate::display_text::DisplayTextMap>,
    start: CharCursor,
    target: CharCursor,
) -> bool {
    &&& clamped_to(rows, painted_caret(cursor.primary, char_offset_base, slice_chars, display_map), start)
    &&& if key == Key::ArrowLeft || key == Key::ArrowRight {
        arrow_target(s, rows, cursor.primary.index, key, modifiers, char_offset_base, slice_chars, display_map,
            start, target)
    } else {
        page_walk(rows, start, target, page_jump_rows, key == Key::PageDown)
    }
}

/// The selection `moved` after a movement key on selection `cursor` in text
/// `s`, in a slice starting at `char_offset_base`, holding `slice_chars`
/// characters and laid out in rows `rows`: Left/Right move through the
/// laid-out slice ([`laid_out_move`]); keys that move on document lines go to
/// their document target; PageUp/PageDown with no line to go to move on
/// laid-out rows; other keys, and Up/Down/Home/End with no target, move
/// nothing. The selection then follows [`finalized_movement`].
pub open spec fn movement_outcome(
    cursor: CursorRange,
    key: Key,
    modifiers: Modifiers,
    s: Seq<char>,
    rows: Seq<(usize, bool)>,
    page_jump_rows: int,
    total: int,
    char_offset_base: usize,
    slice_chars: usize,
    display_map: Option<&crate::display_text::DisplayTextMap>,
    moved: Option<CursorRange>,
) -> bool {
    let document = document_move_target(s, cursor.primary.index as int, key, modifiers, page_jump_rows, total);
    let laid_out = key == Key::ArrowLeft || key == Key::ArrowRight
        || (document is None && (key == Key::PageUp || key == Key::PageDown));
    if laid_out {
        exists|new_primary: CharCursor|
            #[trigger] laid_out_move(cursor, key, modifiers, s, rows, page_jump_rows, total as usize,
                char_offset_base, slice_chars, display_map, new_primary)
            && moved == Some(finalized_movement(cursor, key, modifiers, new_primary))
    } else {
        match document {
            Some(index) => moved == Some(finalized_movement(cursor, key, modifiers,
                CharCursor { index: index as usize, prefer_next_row: false })),
            None => moved is None,
        }
    }
}

/// A movement key pressed in a laid-out slice of the document.
pub struct CursorMovementRequest<'a> {
    pub cursor: &'a CursorRange,
    pub key: Key,
    pub modifiers: &'a Modifiers,
    pub galley: &'a egui::Galley,
    pub page_jump_rows: usize,
    pub total_chars: usize,
    pub piece_tree: &'a PieceTreeLite,
    pub char_offset_base: usize,
    pub slice_chars: usize,
    pub display_map: Option<&'a crate::display_text::DisplayTextMap>,
}

/// The selection after a movement key. Up/Down, Home/End and PageUp/PageDown
/// move on document lines; Left/Right move through the laid-out text (or by
/// words); PageUp/PageDown fall back to painted rows at the document's first
/// or last line. Other keys move nothing.
pub fn apply_cursor_movement(request: CursorMovementRequest) -> (moved: Option<CursorRange>)
    requires
        request.page_jump_rows <= isize::MAX,
    ensures
        movement_outcome(*request.cursor, request.key, *request.modifiers, request.piece_tree@,
            galley_rows(*request.galley), request.page_jump_rows as int, request.total_chars as int,
            request.char_offset_base, request.slice_chars, request.display_map, moved),
{
    let shifted = request.cursor.primary.index.saturating_sub(request.char_offset_base);
    let doc_local = if shifted < request.slice_chars { shifted } else { request.slice_chars };
    let local_cursor = CharCursor {
        index: match request.display_map {
            Some(map) => map.doc_to_display_cursor(doc_local),
            None => doc_local,
        },
        prefer_next_row: request.cursor.primary.prefer_next_row,
    };
    let egui_cursor = galley_clamp_cursor(request.galley, local_cursor);
    let ghost s = request.piece_tree@;
    let ghost total = (request.total_chars as int) as usize;
    let ghost base = request.char_offset_base;
    let ghost slice = request.slice_chars;
    let ghost map = request.display_map;
    let ghost rows = galley_rows(*request.galley);
    let ghost pages = request.page_jump_rows as int;
    assert(local_cursor == painted_caret(request.cursor.primary, base, slice, map));
    let horizontal = horizontal_movement_target(
        request.cursor.primary.index,
        request.char_offset_base,
        request.slice_chars,
        request.key,
        request.modifiers,
        request.galley,
        egui_cursor,
        request.piece_tree,
        request.display_map,
    );
    let new_primary = match horizontal {
        Some(target) => {
            let doc = clamp_char_cursor(request.galley, request.total_chars, target,
                request.char_offset_base, request.display_map);
            proof {
                let clamped = choose|c: CharCursor| clamped_to(rows, target, c)
                    && doc == #[trigger] document_caret(c, total, base, map);
                assert(laid_out_aim(s, rows, *request.cursor, request.key, *request.modifiers, pages, base, slice,
                    map, egui_cursor, target));
                assert(laid_out_move(*request.cursor, request.key, *request.modifiers, s, rows, pages, total, base,
                    slice, map, doc));
            }
            doc
        },
        None => match full_document_movement_target(
            request.cursor.primary.index,
            request.key,
            request.modifiers,
            request.page_jump_rows,
            request.total_chars,
            request.piece_tree,
        ) {
            Some(target) => target,
            None => match page_movement_target(request.key, request.galley, egui_cursor, request.page_jump_rows) {
                Some(target) => {
                    let doc = clamp_char_cursor(request.galley, request.total_chars, target,
                        request.char_offset_base, request.display_map);
                    proof {
                        let clamped = choose|c: CharCursor| clamped_to(rows, target, c)
                            && doc == #[trigger] document_caret(c, total, base, map);
                        assert(laid_out_aim(s, rows, *request.cursor, request.key, *request.modifiers, pages, base,
                            slice, map, egui_cursor, target));
                        assert(laid_out_move(*request.cursor, request.key, *request.modifiers, s, rows, pages, total,
                            base, slice, map, doc));
                    }
                    doc
                },
                None => {
                    return None;
                },
            },
        },
    };
    Some(finalize_cursor_movement(request.cursor, request.key, request.modifiers, new_primary))
}

/// Left never moves the caret forward: with no display map and the
/// selection's primary end at or after the slice start, the primary end after
/// Left is at or before where it was.
pub proof fn left_arrow_never_moves_forward(
    cursor: CursorRange,
    modifiers: Modifiers,
    s: Seq<char>,
    rows: Seq<(usize, bool)>,
    page_jump_rows: int,
    total: usize,
    char_offset_base: usize,
    slice_chars: usize,
    moved: Option<CursorRange>,
)
    requires
        movement_outcome(cursor, Key::ArrowLeft, modifiers, s, rows, page_jump_rows, total as int,
            char_offset_base, slice_chars, None, moved),
        char_offset_base <= cursor.primary.index,
    ensures
        moved is Some,
        moved->0.primary.index <= cursor.primary.index,
{
    let key = Key::ArrowLeft;
    let map: Option<&crate::display_text::DisplayTextMap> = None;
    let new_primary = choose|n: CharCursor|
        #[trigger] laid_out_move(cursor, key, modifiers, s, rows, page_jump_rows, total, char_offset_base,
            slice_chars, map, n)
        && moved == Some(finalized_movement(cursor, key, modifiers, n));
    let (start, target, clamped) = choose|start: CharCursor, target: CharCursor, clamped: CharCursor|
        #![trigger laid_out_aim(s, rows, cursor, key, modifiers, page_jump_rows, char_offset_base, slice_chars, map, start, target), document_caret(clamped, total, char_offset_base, map)]
        laid_out_aim(s, rows, cursor, key, modifiers, page_jump_rows, char_offset_base, slice_chars, map, start,
            target)
        && clamped_to(rows, target, clamped)
        && new_primary == document_caret(clamped, total, char_offset_base, map);
    if wordwise(modifiers) {
        lemma_word_boundary_left_not_after(s, cursor.primary.index as int);
    }
    assert(target.index + char_offset_base <= cursor.primary.index);
    assert(new_primary.index <= cursor.primary.index);
}

} // verus!
