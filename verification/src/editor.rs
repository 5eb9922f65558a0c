//! Native editor decisions made around input handling: selection commands,
//! caret reveal requests, focus and IME bookkeeping, and galley rebuilds.
use vstd::prelude::*;
use crate::buffer::{BufferState, PieceSource};
use crate::editing::{apply_cut, apply_delete_selection, apply_text_insert_with_source, edit_recorded, text_inserted};
use crate::piece_tree::line_index_at;
use crate::types::{CharCursor, CursorRange, selection_char_range, sorted_ends};
use crate::view::{CursorRevealMode, EditorViewState};

verus! {

/// Selection of the whole document, caret at the end.
pub fn select_all_cursor(total_chars: usize) -> (range: CursorRange)
    ensures
        range == (CursorRange {
            primary: CharCursor { index: total_chars, prefer_next_row: false },
            secondary: CharCursor { index: 0, prefer_next_row: false },
        }),
{
    CursorRange::two(0, total_chars)
}

/// The selected document text (never display glyphs), or `None` for a collapsed selection.
pub fn selected_text(buffer: &BufferState, cursor: CursorRange) -> (text: Option<String>)
    requires
        sorted_ends(cursor).1 <= buffer@.len(),
    ensures
        match text {
            Some(t) => cursor.primary.index != cursor.secondary.index
                && t@ == buffer@.subrange(sorted_ends(cursor).0 as int, sorted_ends(cursor).1 as int),
            None => cursor.primary.index == cursor.secondary.index,
        },
{
    let range = match selection_char_range(&cursor) {
        Some(range) => range,
        None => {
            return None;
        },
    };
    Some(buffer.document().piece_tree().extract_range(range))
}

/// Cuts the selection unless the buffer is still loading or nothing is selected.
pub fn cut_selected_text(buffer: &mut BufferState, cursor: CursorRange) -> (result: Option<(CursorRange, String)>)
    requires
        sorted_ends(cursor).1 <= old(buffer)@.len(),
    ensures
        if !old(buffer).is_loading_preview && cursor.primary.index != cursor.secondary.index {
            let (start, end) = sorted_ends(cursor);
            let pair = result->0;
            &&& result is Some
            &&& pair.0 == CursorRange::one_spec(CharCursor { index: start, prefer_next_row: true })
            &&& pair.1@ == old(buffer)@.subrange(start as int, end as int)
            &&& edit_recorded(*old(buffer), *final(buffer), cursor, pair.0, start as int,
                old(buffer)@.subrange(start as int, end as int), Seq::empty(), PieceSource::Cut)
        } else {
            result is None && *final(buffer) == *old(buffer)
        },
{
    if !buffer.is_loading_preview && !cursor.is_empty() {
        Some(apply_cut(buffer, &cursor))
    } else {
        None
    }
}

/// Deletes the selection unless the buffer is still loading or nothing is selected.
pub fn delete_selected_text(buffer: &mut BufferState, cursor: CursorRange) -> (next: Option<CursorRange>)
    requires
        sorted_ends(cursor).1 <= old(buffer)@.len(),
    ensures
        if !old(buffer).is_loading_preview && cursor.primary.index != cursor.secondary.index {
            let (start, end) = sorted_ends(cursor);
            &&& next == Some(CursorRange::one_spec(CharCursor { index: start, prefer_next_row: true }))
            &&& edit_recorded(*old(buffer), *final(buffer), cursor, next->0, start as int,
                old(buffer)@.subrange(start as int, end as int), Seq::empty(), PieceSource::Edit)
        } else {
            next is None && *final(buffer) == *old(buffer)
        },
{
    if !buffer.is_loading_preview && !cursor.is_empty() {
        Some(apply_delete_selection(buffer, &cursor))
    } else {
        None
    }
}

/// Whether two optional selections are the same.
pub fn same_cursor_range(a: Option<CursorRange>, b: Option<CursorRange>) -> (same: bool)
    ensures
        same == (a == b),
{
    match (a, b) {
        (None, None) => true,
        (Some(x), Some(y)) => x == y,
        _ => false,
    }
}

/// Whether two optional character ranges are the same.
pub fn same_char_range(a: Option<&std::ops::Range<usize>>, b: Option<&std::ops::Range<usize>>) -> (same: bool)
    ensures
        same == (match (a, b) {
            (None, None) => true,
            (Some(x), Some(y)) => x.start == y.start && x.end == y.end,
            _ => false,
        }),
{
    match (a, b) {
        (None, None) => true,
        (Some(x), Some(y)) => x.start == y.start && x.end == y.end,
        _ => false,
    }
}

/// Whether the caret lies in the laid-out slice `char_offset_base..=char_offset_base + slice_chars`;
/// no caret counts as inside.
pub open spec fn primary_in_slice(cursor_range: Option<CursorRange>, char_offset_base: int, slice_chars: int) -> bool {
    match cursor_range {
        None => true,
        Some(c) => char_offset_base <= c.primary.index <= (if char_offset_base + slice_chars > usize::MAX {
            usize::MAX as int
        } else {
            char_offset_base + slice_chars
        }),
    }
}

/// Whether the caret lies inside the laid-out slice.
pub fn cursor_primary_in_slice(cursor_range: Option<CursorRange>, char_offset_base: usize, slice_chars: usize) -> (inside: bool)
    ensures
        inside == primary_in_slice(cursor_range, char_offset_base as int, slice_chars as int),
{
    let cursor_range = match cursor_range {
        Some(c) => c,
        None => {
            return true;
        },
    };
    let slice_end = char_offset_base.saturating_add(slice_chars);
    char_offset_base <= cursor_range.primary.index && cursor_range.primary.index <= slice_end
}

/// The galley is rebuilt after input when the text changed, when the shared
/// selection changed, or when the caret moved out of the laid-out slice.
pub fn should_rebuild_galley_after_input(
    changed: bool,
    pre_active_selection: Option<&std::ops::Range<usize>>,
    post_active_selection: Option<&std::ops::Range<usize>>,
    pre_cursor_range: Option<CursorRange>,
    post_cursor_range: Option<CursorRange>,
    char_offset_base: usize,
    slice_chars: usize,
) -> (rebuild: bool)
    ensures
        rebuild == (changed
            || !(match (pre_active_selection, post_active_selection) {
                (None, None) => true,
                (Some(x), Some(y)) => x.start == y.start && x.end == y.end,
                _ => false,
            })
            || (pre_cursor_range != post_cursor_range
                && !primary_in_slice(post_cursor_range, char_offset_base as int, slice_chars as int))),
{
    changed
        || !same_char_range(pre_active_selection, post_active_selection)
        || (!same_cursor_range(pre_cursor_range, post_cursor_range)
            && !cursor_primary_in_slice(post_cursor_range, char_offset_base, slice_chars))
}

/// The shared selection a view publishes: its selected range, when any.
pub open spec fn published_selection(view: EditorViewState) -> Option<std::ops::Range<usize>> {
    match view.cursor_range {
        Some(c) => if c.primary.index != c.secondary.index {
            Some(sorted_ends(c).0..sorted_ends(c).1)
        } else {
            None
        },
        None => None,
    }
}

/// A focused view publishes its selection to the buffer; returns whether the
/// shared selection changed.
pub fn publish_active_selection(buffer: &mut BufferState, view: &EditorViewState, focused: bool) -> (changed: bool)
    ensures
        focused ==> *final(buffer) == (BufferState { active_selection: published_selection(*view), ..*old(buffer) }),
        !focused ==> *final(buffer) == *old(buffer),
        changed == !(match (old(buffer).active_selection, final(buffer).active_selection) {
            (None, None) => true,
            (Some(x), Some(y)) => x.start == y.start && x.end == y.end,
            _ => false,
        }),
{
    let previous = match &buffer.active_selection {
        Some(r) => Some(crate::highlights::copy_range(r)),
        None => None,
    };
    if focused {
        buffer.active_selection = match &view.cursor_range {
            Some(c) => selection_char_range(c),
            None => None,
        };
        proof {
            let p = published_selection(*view);
            let q = buffer.active_selection;
            if q is Some && p is Some {
                assert(q->0 == p->0);
            }
        }
    }
    !same_char_range(previous.as_ref(), buffer.active_selection.as_ref())
}

/// Line of the caret, when it lies within the document.
pub fn primary_line_index(buffer: &BufferState, cursor: CursorRange) -> (line: Option<usize>)
    ensures
        match line {
            Some(l) => cursor.primary.index <= buffer@.len() && l == line_index_at(buffer@, cursor.primary.index as int),
            None => cursor.primary.index > buffer@.len(),
        },
{
    if cursor.primary.index <= buffer.current_file_length().chars {
        Some(buffer.document().piece_tree().line_index_at_offset(cursor.primary.index))
    } else {
        None
    }
}

/// Whether an edit left the caret on another line than before (an unknown
/// previous line counts as another).
pub fn edit_moved_primary_cursor_to_new_line(
    buffer: &BufferState,
    cursor: Option<CursorRange>,
    prev_cursor_line: Option<usize>,
) -> (moved: bool)
    ensures
        moved == match prev_cursor_line {
            None => true,
            Some(prev) => {
                let c = match cursor { Some(c) => c, None => CursorRange::default_spec() };
                !(c.primary.index <= buffer@.len()) || line_index_at(buffer@, c.primary.index as int) != prev
            },
        },
{
    let prev_line = match prev_cursor_line {
        Some(line) => line,
        None => {
            return true;
        },
    };
    let c = match cursor {
        Some(c) => c,
        None => CursorRange::default(),
    };
    match primary_line_index(buffer, c) {
        None => true,
        Some(line) => line != prev_line,
    }
}

/// The reveal a view requests after input: none while a drag selects (any
/// pending one is dropped) or when the caret did not move; horizontal only
/// for an edit that stayed on its unwrapped line; full otherwise.
pub open spec fn reveal_after_input(
    buffer: BufferState,
    old_mode: Option<CursorRevealMode>,
    cursor: Option<CursorRange>,
    prev_cursor: Option<CursorRange>,
    prev_cursor_line: Option<usize>,
    word_wrap: bool,
    changed: bool,
    suppress_reveal: bool,
) -> Option<CursorRevealMode> {
    if suppress_reveal {
        None
    } else if cursor == prev_cursor {
        old_mode
    } else {
        let moved = match prev_cursor_line {
            None => true,
            Some(prev) => {
                let c = match cursor { Some(c) => c, None => CursorRange::default_spec() };
                !(c.primary.index <= buffer@.len()) || line_index_at(buffer@, c.primary.index as int) != prev
            },
        };
        if word_wrap || !changed || moved {
            Some(CursorRevealMode::KeepVisible)
        } else {
            Some(CursorRevealMode::KeepHorizontalVisible)
        }
    }
}

/// Requests the caret reveal that fits the input just handled.
pub fn request_cursor_reveal_after_input(
    buffer: &BufferState,
    view: &mut EditorViewState,
    prev_cursor: Option<CursorRange>,
    prev_cursor_line: Option<usize>,
    word_wrap: bool,
    changed: bool,
    suppress_reveal: bool,
)
    ensures
        *final(view) == (EditorViewState {
            cursor_reveal: reveal_after_input(*buffer, old(view).cursor_reveal, old(view).cursor_range,
                prev_cursor, prev_cursor_line, word_wrap, changed, suppress_reveal),
            ..*old(view)
        }),
{
    if suppress_reveal {
        view.clear_cursor_reveal();
        return;
    }
    if same_cursor_range(view.cursor_range, prev_cursor) {
        return;
    }
    if word_wrap || !changed || edit_moved_primary_cursor_to_new_line(buffer, view.cursor_range, prev_cursor_line) {
        view.request_cursor_reveal(CursorRevealMode::KeepVisible);
    } else {
        view.request_cursor_reveal(CursorRevealMode::KeepHorizontalVisible);
    }
}

/// Losing focus ends IME composition and forgets published IME output.
pub fn sync_ime_output_focus(view: &mut EditorViewState, focused: bool)
    ensures
        focused ==> *final(view) == *old(view),
        !focused ==> *final(view) == (EditorViewState { ime_output_published: false, ime_preedit: None, ..*old(view) }),
{
    if !focused {
        view.clear_ime_output();
        view.ime_preedit = None;
    }
}

/// Applies a pending selection and reveals it (centered unless a reveal is already pending).
pub fn restore_pending_cursor(view: &mut EditorViewState, cursor_range: CursorRange)
    ensures
        *final(view) == (EditorViewState {
            cursor_range: Some(cursor_range),
            cursor_reveal: Some(match old(view).cursor_reveal { Some(m) => m, None => CursorRevealMode::Center }),
            ..*old(view)
        }),
{
    view.cursor_range = Some(cursor_range);
    let mode = match view.cursor_reveal_mode() {
        Some(mode) => mode,
        None => CursorRevealMode::Center,
    };
    view.request_cursor_reveal(mode);
}

/// Before painting: a pending selection wins; a focused view without a caret
/// gets one at the document start, revealed.
pub fn sync_view_cursor_before_render(view: &mut EditorViewState, focused: bool)
    ensures
        match old(view).pending_cursor_range {
            Some(pending) => *final(view) == (EditorViewState {
                pending_cursor_range: None,
                cursor_range: Some(pending),
                cursor_reveal: Some(match old(view).cursor_reveal { Some(m) => m, None => CursorRevealMode::Center }),
                ..*old(view)
            }),
            None => if !focused || old(view).cursor_range is Some {
                *final(view) == *old(view)
            } else {
                *final(view) == (EditorViewState {
                    cursor_range: Some(CursorRange::one_spec(CharCursor { index: 0, prefer_next_row: false })),
                    cursor_reveal: Some(CursorRevealMode::KeepVisible),
                    ..*old(view)
                })
            },
        },
{
    if let Some(cursor_range) = view.pending_cursor_range {
        view.pending_cursor_range = None;
        restore_pending_cursor(view, cursor_range);
        return;
    }
    if !focused || view.cursor_range.is_some() {
        return;
    }
    view.cursor_range = Some(CursorRange::one(CharCursor::new(0)));
    view.request_cursor_reveal(CursorRevealMode::KeepVisible);
}

/// Line of the view's caret, when it has one within the document.
pub fn cursor_line_index(buffer: &BufferState, view: &EditorViewState) -> (line: Option<usize>)
    ensures
        match line {
            Some(l) => view.cursor_range is Some && view.cursor_range->0.primary.index <= buffer@.len()
                && l == line_index_at(buffer@, view.cursor_range->0.primary.index as int),
            None => view.cursor_range is None || view.cursor_range->0.primary.index > buffer@.len(),
        },
{
    let cursor = match view.cursor_range {
        Some(c) => c,
        None => {
            return None;
        },
    };
    primary_line_index(buffer, cursor)
}

/// The caret line the viewport slice must include: only while a reveal is pending.
pub fn cursor_line_for_viewport_slice(buffer: &BufferState, view: &EditorViewState) -> (line: Option<usize>)
    ensures
        match line {
            Some(l) => view.cursor_reveal is Some && view.cursor_range is Some
                && view.cursor_range->0.primary.index <= buffer@.len()
                && l == line_index_at(buffer@, view.cursor_range->0.primary.index as int),
            None => view.cursor_reveal is None || view.cursor_range is None
                || view.cursor_range->0.primary.index > buffer@.len(),
        },
{
    match view.cursor_reveal_mode() {
        Some(_) => cursor_line_index(buffer, view),
        None => None,
    }
}

/// After painting, an unchanged view drops its reveal once attempted (or when none is pending).
pub fn consume_cursor_reveal(view: &mut EditorViewState, changed: bool, reveal_attempted: bool)
    ensures
        !changed && (old(view).cursor_reveal is None || reveal_attempted) ==>
            *final(view) == (EditorViewState { cursor_reveal: None, ..*old(view) }),
        !(!changed && (old(view).cursor_reveal is None || reveal_attempted)) ==> *final(view) == *old(view),
{
    if !changed && (view.cursor_reveal_mode().is_none() || reveal_attempted) {
        view.clear_cursor_reveal();
    }
}

/// Moves the caret end of the selection, keeping its anchor; without a selection nothing happens.
pub fn extend_selection_to_cursor(view: &mut EditorViewState, char_cursor: CharCursor)
    ensures
        match old(view).cursor_range {
            Some(existing) => *final(view) == (EditorViewState {
                cursor_range: Some(CursorRange { primary: char_cursor, secondary: existing.secondary }),
                ..*old(view)
            }),
            None => *final(view) == *old(view),
        },
{
    if let Some(existing) = view.cursor_range {
        view.cursor_range = Some(CursorRange { primary: char_cursor, secondary: existing.secondary });
    }
}

/// Text from input that is inserted as typed: not empty and not a bare line break.
pub fn is_insertable_text(text: &str) -> (insertable: bool)
    ensures
        insertable == (text@.len() > 0 && text@ != seq!['\n'] && text@ != seq!['\r']),
{
    let chars = crate::text::chars_of(text);
    if chars.len() == 0 {
        return false;
    }
    if chars.len() == 1 && (chars[0] == '\n' || chars[0] == '\r') {
        assert(chars[0] == '\n' ==> chars@ =~= seq!['\n']);
        assert(chars[0] == '\r' ==> chars@ =~= seq!['\r']);
        return false;
    }
    assert(chars@.len() != 1 ==> chars@ != seq!['\n'] && chars@ != seq!['\r']);
    true
}

/// Inserts `text` at the selection with the given source, ends IME
/// composition and moves the view's caret after it. Always reports a change.
pub fn insert_text_with_source(
    buffer: &mut BufferState,
    view: &mut EditorViewState,
    cursor: &CursorRange,
    text: &str,
    source: PieceSource,
) -> (changed: bool)
    requires
        sorted_ends(*cursor).1 <= old(buffer)@.len(),
        old(buffer)@.len() + 2 * text@.len() < usize::MAX,
    ensures
        changed,
        final(view).cursor_range is Some,
        text_inserted(*old(buffer), *final(buffer), *cursor, text@, source, final(view).cursor_range->0),
        *final(view) == (EditorViewState { ime_preedit: None, cursor_range: final(view).cursor_range, ..*old(view) }),
{
    view.ime_preedit = None;
    let new_cursor = apply_text_insert_with_source(buffer, cursor, text, source);
    view.set_cursor_range_anchored(new_cursor);
    true
}

/// Inserts typed text as a plain edit.
pub fn insert_text(buffer: &mut BufferState, view: &mut EditorViewState, cursor: &CursorRange, text: &str) -> (changed: bool)
    requires
        sorted_ends(*cursor).1 <= old(buffer)@.len(),
        old(buffer)@.len() + 2 * text@.len() < usize::MAX,
    ensures
        changed,
        final(view).cursor_range is Some,
        text_inserted(*old(buffer), *final(buffer), *cursor, text@, PieceSource::Edit, final(view).cursor_range->0),
        *final(view) == (EditorViewState { ime_preedit: None, cursor_range: final(view).cursor_range, ..*old(view) }),
{
    insert_text_with_source(buffer, view, cursor, text, PieceSource::Edit)
}

/// After undo or redo: the returned selection becomes the view's; reports whether there was one.
pub fn apply_history(view: &mut EditorViewState, selection: Option<CursorRange>) -> (changed: bool)
    ensures
        changed == selection is Some,
        match selection {
            Some(s) => *final(view) == (EditorViewState { cursor_range: Some(s), ..*old(view) }),
            None => *final(view) == *old(view),
        },
{
    if let Some(selection) = selection {
        view.set_cursor_range_anchored(selection);
        true
    } else {
        false
    }
}

/// Applies a caret update when there is one; never reports a text change.
pub fn apply_cursor_update(view: &mut EditorViewState, next_cursor: Option<CursorRange>) -> (changed: bool)
    ensures
        !changed,
        match next_cursor {
            Some(s) => *final(view) == (EditorViewState { cursor_range: Some(s), ..*old(view) }),
            None => *final(view) == *old(view),
        },
{
    if let Some(new_cursor) = next_cursor {
        view.set_cursor_range_anchored(new_cursor);
    }
    false
}

/// Pointer tracking runs while the primary button is down over the editor or dragging it.
pub fn primary_pointer_tracking_active(primary_button_down: bool, contains_pointer: bool, is_dragged: bool) -> (active: bool)
    ensures
        active == (primary_button_down && (contains_pointer || is_dragged)),
{
    primary_button_down && (contains_pointer || is_dragged)
}

} // verus!

verus! {

/// The part of a document laid out for a viewport: its text, its
/// characters in the document and its first line.
pub struct ViewportTextSlice {
    pub text: String,
    pub char_range: std::ops::Range<usize>,
    pub start_line: usize,
}

/// Lines laid out around and beyond the visible ones: as many as are
/// visible, at least 4 and at most 24.
pub open spec fn overscan_lines(visible_lines: usize) -> usize {
    if visible_lines < 4 { 4 } else if visible_lines > 24 { 24 } else { visible_lines }
}

/// First and last line of the slice laid out for a viewport whose top shows
/// `top_line` and which holds `visible_lines` lines, in a document whose
/// last line is `last`; a caret line outside that window moves it.
pub open spec fn slice_lines(top_line: usize, visible_lines: usize, last: int, cursor_line: Option<usize>) -> (int, int) {
    let overscan = overscan_lines(visible_lines) as int;
    let above = if top_line >= overscan { top_line - overscan } else { 0 };
    let start = if above < last { above } else { last };
    let below = top_line + visible_lines + overscan;
    let end = if below < last { below } else { last };
    match cursor_line {
        Some(c) if c <= last => if c < start {
            (if c >= overscan { c - overscan } else { 0 }, end)
        } else if c > end {
            (if c >= overscan { c - overscan } else { 0 }, if c + overscan < last { c + overscan } else { last })
        } else {
            (start, end)
        },
        _ => (start, end),
    }
}

/// The whole lines of the document around the viewport, with overscan, and
/// moved to hold the caret's line when one is given. `top_line` is the line
/// at the viewport's top and `visible_lines` how many lines it holds.
pub fn viewport_text_slice(
    buffer: &BufferState,
    top_line: usize,
    visible_lines: usize,
    cursor_line: Option<usize>,
) -> (slice: ViewportTextSlice)
    requires
        buffer.line_count == crate::piece_tree::newline_count(buffer@) + 1,
        top_line + visible_lines + 24 <= usize::MAX,
        buffer@.len() + 24 <= usize::MAX,
    ensures
        ({
            let s = buffer@;
            let (start, end) = slice_lines(top_line, visible_lines, crate::piece_tree::newline_count(s) as int, cursor_line);
            &&& slice.start_line == start
            &&& slice.char_range.start == crate::piece_tree::line_start_of(s, start)
            &&& slice.char_range.end == crate::piece_tree::line_end_of(s, end)
            &&& slice.text@ == s.subrange(slice.char_range.start as int, slice.char_range.end as int)
        }),
{
    let tree = buffer.document().piece_tree();
    let _ = tree.metrics();
    let line_count = if buffer.line_count > 1 { buffer.line_count } else { 1 };
    let last = line_count - 1;
    let overscan: usize = if visible_lines < 4 { 4 } else if visible_lines > 24 { 24 } else { visible_lines };
    let above = top_line.saturating_sub(overscan);
    let mut start_line = if above < last { above } else { last };
    let below = top_line + visible_lines + overscan;
    let mut end_line = if below < last { below } else { last };
    if let Some(c) = cursor_line {
        if c < line_count {
            if c < start_line {
                start_line = c.saturating_sub(overscan);
            } else if c > end_line {
                start_line = c.saturating_sub(overscan);
                let reach = c + overscan;
                end_line = if reach < last { reach } else { last };
            }
        }
    }
    let _ = tree.len_chars();
    let start_char = tree.line_info(start_line).start_char;
    let end_info = tree.line_info(end_line);
    let end_char = end_info.start_char + end_info.char_len;
    proof {
        crate::piece_tree::lemma_line_starts(buffer@);
    }
    let text = tree.extract_range(start_char..end_char);
    ViewportTextSlice { text, char_range: start_char..end_char, start_line }
}

} // verus!
