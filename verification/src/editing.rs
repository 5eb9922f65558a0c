//! Text edits driven by the editor: insertion, deletion, cut and outdent,
//! each recorded as one undoable operation.
use vstd::prelude::*;
use crate::buffer::{BufferState, PieceSource, line_ending_chars, revert_edits, apply_edits};
use crate::cursor::{Modifiers, wordwise};
use crate::piece_tree::{line_index_at, line_start_of, line_end_of, newline_count};
use crate::text::{chars_of, string_of};
use crate::types::{CharCursor, CursorRange, EditOperation, OperationRecord, sorted_ends};
use crate::word_boundary::{find_word_boundary_left, find_word_boundary_right, word_boundary_left, word_boundary_right};

verus! {

/// `new` is `old` with `deleted` at `start` replaced by `inserted`, recorded as
/// one operation from `previous` to `next` with the given source; nothing is
/// left to redo, the line count is that of the new text (or unchanged with
/// the text), and the buffer's other state is unchanged.
pub open spec fn edit_recorded(
    old: BufferState,
    new: BufferState,
    previous: CursorRange,
    next: CursorRange,
    start: int,
    deleted: Seq<char>,
    inserted: Seq<char>,
    source: PieceSource,
) -> bool {
    let entries = new.document.undo_entries();
    &&& 0 <= start && start + deleted.len() <= old@.len()
    &&& deleted == old@.subrange(start, start + deleted.len())
    &&& new@ == old@.subrange(0, start) + inserted + old@.subrange(start + deleted.len(), old@.len() as int)
    &&& entries.len() == old.document.undo_entries().len() + 1
    &&& entries.drop_last() == old.document.undo_entries()
    &&& new.document.redo_entries().len() == 0
    &&& entries.last().source == source
    &&& entries.last().record.previous_selection == previous
    &&& entries.last().record.next_selection == next
    &&& entries.last().record.edits@.len() == 1
    &&& entries.last().record.edits@[0].start_char == start
    &&& entries.last().record.edits@[0].deleted_text@ == deleted
    &&& entries.last().record.edits@[0].inserted_text@ == inserted
    &&& new.line_count == newline_count(new@) + 1 || (new@ == old@ && new.line_count == old.line_count)
    &&& new.document.preferred_line_ending() == old.document.preferred_line_ending()
    &&& new.active_selection == old.active_selection
    &&& new.is_loading_preview == old.is_loading_preview
    &&& new.show_control_chars == old.show_control_chars
}

/// The buffer's text and history are untouched.
pub open spec fn unchanged(old: BufferState, new: BufferState) -> bool {
    new == old
}

/// `s` from position `i` on, with every CR LF, lone CR and lone LF replaced by `preferred`.
pub open spec fn normalized_from(s: Seq<char>, i: int, preferred: Seq<char>) -> Seq<char>
    decreases s.len() - i,
{
    if i < 0 || i >= s.len() {
        Seq::empty()
    } else if s[i] == '\r' {
        let next = if i + 1 < s.len() && s[i + 1] == '\n' { i + 2 } else { i + 1 };
        preferred + normalized_from(s, next, preferred)
    } else if s[i] == '\n' {
        preferred + normalized_from(s, i + 1, preferred)
    } else {
        seq![s[i]] + normalized_from(s, i + 1, preferred)
    }
}

/// `s` with every line break written as `preferred`.
pub open spec fn normalized(s: Seq<char>, preferred: Seq<char>) -> Seq<char> {
    normalized_from(s, 0, preferred)
}

proof fn lemma_normalized_len(s: Seq<char>, i: int, preferred: Seq<char>)
    requires
        0 <= i <= s.len(),
        preferred.len() <= 2,
    ensures
        normalized_from(s, i, preferred).len() <= 2 * (s.len() - i),
    decreases s.len() - i,
{
    if i < s.len() {
        if s[i] == '\r' && i + 1 < s.len() && s[i + 1] == '\n' {
            lemma_normalized_len(s, i + 2, preferred);
        } else {
            lemma_normalized_len(s, i + 1, preferred);
        }
    }
}

/// Position after a line feed at `i`, or `i` when there is none.
pub fn consume_lf_after_cr(chars: &Vec<char>, i: usize) -> (next: usize)
    requires
        i <= chars@.len(),
    ensures
        next == if i < chars@.len() && chars@[i as int] == '\n' { i + 1 } else { i as int },
{
    if i < chars.len() && chars[i] == '\n' { i + 1 } else { i }
}

/// Appends the normalized form of the character at `i` and returns the next position.
pub fn push_normalized_line_char(result: &mut Vec<char>, chars: &Vec<char>, i: usize, preferred: &Vec<char>) -> (next: usize)
    requires
        i < chars@.len(),
    ensures
        i < next <= chars@.len(),
        final(result)@ + normalized_from(chars@, next as int, preferred@)
            == old(result)@ + normalized_from(chars@, i as int, preferred@),
{
    let _n = chars.len();
    let ch = chars[i];
    if ch == '\r' {
        let next = consume_lf_after_cr(chars, i + 1);
        crate::text::append_chars(result, preferred);
        assert(result@ + normalized_from(chars@, next as int, preferred@) =~= old(result)@ + normalized_from(chars@, i as int, preferred@));
        next
    } else if ch == '\n' {
        crate::text::append_chars(result, preferred);
        assert(result@ + normalized_from(chars@, i + 1, preferred@) =~= old(result)@ + normalized_from(chars@, i as int, preferred@));
        i + 1
    } else {
        result.push(ch);
        assert(result@ + normalized_from(chars@, i + 1, preferred@) =~= old(result)@ + normalized_from(chars@, i as int, preferred@));
        i + 1
    }
}

/// `text` with each line break (CR LF, CR or LF) written as `preferred`.
pub fn normalize_line_endings(text: &str, preferred: &str) -> (out: String)
    requires
        preferred@.len() <= 2,
    ensures
        out@ == normalized(text@, preferred@),
        out@.len() <= 2 * text@.len(),
{
    let chars = chars_of(text);
    let pref = chars_of(preferred);
    let mut result: Vec<char> = Vec::new();
    let mut i: usize = 0;
    while i < chars.len()
        invariant
            chars@ == text@,
            pref@ == preferred@,
            i <= chars@.len(),
            result@ + normalized_from(chars@, i as int, pref@) == normalized(text@, preferred@),
        decreases chars.len() - i,
    {
        i = push_normalized_line_char(&mut result, &chars, i, &pref);
    }
    assert(result@ =~= result@ + normalized_from(chars@, i as int, pref@));
    proof { lemma_normalized_len(text@, 0, preferred@); }
    string_of(result.as_slice())
}

/// The pieces of one recorded edit.
pub struct RecordedEdit {
    pub new_cursor: CursorRange,
    pub start_char: usize,
    pub deleted_text: String,
    pub inserted_text: String,
}

/// Records an edit as one undoable operation from `cursor` to the edit's new cursor.
pub fn record_edit(buffer: &mut BufferState, cursor: &CursorRange, edit: RecordedEdit, source: PieceSource)
    ensures
        final(buffer)@ == old(buffer)@,
        ({
            let entries = final(buffer).document.undo_entries();
            &&& entries.len() == old(buffer).document.undo_entries().len() + 1
            &&& entries.drop_last() == old(buffer).document.undo_entries()
            &&& final(buffer).document.redo_entries().len() == 0
            &&& entries.last().source == source
            &&& entries.last().record.previous_selection == *cursor
            &&& entries.last().record.next_selection == edit.new_cursor
            &&& entries.last().record.edits@.len() == 1
            &&& entries.last().record.edits@[0].start_char == edit.start_char
            &&& entries.last().record.edits@[0].deleted_text@ == edit.deleted_text@
            &&& entries.last().record.edits@[0].inserted_text@ == edit.inserted_text@
        }),
        final(buffer).document.preferred_line_ending() == old(buffer).document.preferred_line_ending(),
        final(buffer).active_selection == old(buffer).active_selection,
        final(buffer).is_loading_preview == old(buffer).is_loading_preview,
        final(buffer).show_control_chars == old(buffer).show_control_chars,
        final(buffer).line_count == old(buffer).line_count,
{
    let mut edits: Vec<EditOperation> = Vec::new();
    edits.push(EditOperation {
        start_char: edit.start_char,
        deleted_text: edit.deleted_text,
        inserted_text: edit.inserted_text,
    });
    buffer.push_text_edit_operation_with_source(
        OperationRecord { previous_selection: *cursor, next_selection: edit.new_cursor, edits },
        source,
    );
}

/// Removes `start..end` (nothing when `start >= end`) and returns the removed text.
pub fn extract_spans_and_delete_range(buffer: &mut BufferState, start: usize, end: usize) -> (deleted: String)
    requires
        start < end ==> end <= old(buffer)@.len(),
    ensures
        start >= end ==> deleted@.len() == 0 && *final(buffer) == *old(buffer),
        start < end ==> deleted@ == old(buffer)@.subrange(start as int, end as int)
            && final(buffer)@ == old(buffer)@.subrange(0, start as int) + old(buffer)@.subrange(end as int, old(buffer)@.len() as int)
            && final(buffer).line_count == newline_count(final(buffer)@) + 1,
        final(buffer).document.undo_entries() == old(buffer).document.undo_entries(),
        final(buffer).document.redo_entries() == old(buffer).document.redo_entries(),
        final(buffer).document.preferred_line_ending() == old(buffer).document.preferred_line_ending(),
        final(buffer).active_selection == old(buffer).active_selection,
        final(buffer).is_loading_preview == old(buffer).is_loading_preview,
        final(buffer).show_control_chars == old(buffer).show_control_chars,
{
    if start >= end {
        return String::new();
    }
    let _ = buffer.current_file_length();
    let empty: Vec<char> = Vec::new();
    let removed = buffer.replace_chars_direct(start, end, empty.as_slice());
    assert(empty@ =~= Seq::<char>::empty());
    assert(old(buffer)@.subrange(0, start as int) + empty@ =~= old(buffer)@.subrange(0, start as int));
    string_of(removed.as_slice())
}

/// Deletes `start..end`, leaving a caret at `start`, recorded with `source`.
/// Returns the new selection and the deleted text.
pub fn delete_range_with_source(
    buffer: &mut BufferState,
    cursor: &CursorRange,
    start: usize,
    end: usize,
    prefer_next_row: bool,
    source: PieceSource,
) -> (result: (CursorRange, String))
    requires
        start <= end <= old(buffer)@.len(),
    ensures
        result.0 == CursorRange::one_spec(CharCursor { index: start, prefer_next_row }),
        result.1@ == old(buffer)@.subrange(start as int, end as int),
        edit_recorded(*old(buffer), *final(buffer), *cursor, result.0, start as int,
            old(buffer)@.subrange(start as int, end as int), Seq::empty(), source),
{
    let deleted_text = extract_spans_and_delete_range(buffer, start, end);
    let new_cursor = CursorRange::one(CharCursor { index: start, prefer_next_row });
    let kept = crate::text::string_of_chars_of(&deleted_text);
    assert(deleted_text@ =~= old(buffer)@.subrange(start as int, end as int));
    let ghost mid = buffer@;
    record_edit(
        buffer,
        cursor,
        RecordedEdit { new_cursor, start_char: start, deleted_text, inserted_text: String::new() },
        source,
    );
    proof {
        let o = old(buffer)@;
        assert(o.subrange(0, start as int) + Seq::<char>::empty() + o.subrange(start + (end - start), o.len() as int)
            =~= mid);
        assert(start >= end ==> o.subrange(start as int, end as int) =~= Seq::<char>::empty());
    }
    (new_cursor, kept)
}

/// Deletes `start..end` as a plain edit.
pub fn delete_range(
    buffer: &mut BufferState,
    cursor: &CursorRange,
    start: usize,
    end: usize,
    prefer_next_row: bool,
) -> (result: (CursorRange, String))
    requires
        start <= end <= old(buffer)@.len(),
    ensures
        result.0 == CursorRange::one_spec(CharCursor { index: start, prefer_next_row }),
        result.1@ == old(buffer)@.subrange(start as int, end as int),
        edit_recorded(*old(buffer), *final(buffer), *cursor, result.0, start as int,
            old(buffer)@.subrange(start as int, end as int), Seq::empty(), PieceSource::Edit),
{
    delete_range_with_source(buffer, cursor, start, end, prefer_next_row, PieceSource::Edit)
}

/// Deletes `delete_start..delete_end` for Backspace or Delete.
pub fn apply_char_delete(
    buffer: &mut BufferState,
    cursor: &CursorRange,
    delete_start: usize,
    delete_end: usize,
    prefer_next_row: bool,
) -> (next: CursorRange)
    requires
        delete_start <= delete_end <= old(buffer)@.len(),
    ensures
        next == CursorRange::one_spec(CharCursor { index: delete_start, prefer_next_row }),
        edit_recorded(*old(buffer), *final(buffer), *cursor, next, delete_start as int,
            old(buffer)@.subrange(delete_start as int, delete_end as int), Seq::empty(), PieceSource::Edit),
{
    delete_range(buffer, cursor, delete_start, delete_end, prefer_next_row).0
}

/// Deletes the selection, leaving a caret at its start that prefers the next row.
pub fn apply_delete_selection(buffer: &mut BufferState, cursor: &CursorRange) -> (next: CursorRange)
    requires
        sorted_ends(*cursor).1 <= old(buffer)@.len(),
    ensures
        next == CursorRange::one_spec(CharCursor { index: sorted_ends(*cursor).0, prefer_next_row: true }),
        edit_recorded(*old(buffer), *final(buffer), *cursor, next, sorted_ends(*cursor).0 as int,
            old(buffer)@.subrange(sorted_ends(*cursor).0 as int, sorted_ends(*cursor).1 as int), Seq::empty(),
            PieceSource::Edit),
{
    let (start, end) = cursor.sorted_indices();
    delete_range(buffer, cursor, start, end, true).0
}

/// Cuts the selection: deletes it, recorded as a cut, and returns the new
/// caret and the cut text.
pub fn apply_cut(buffer: &mut BufferState, cursor: &CursorRange) -> (result: (CursorRange, String))
    requires
        sorted_ends(*cursor).1 <= old(buffer)@.len(),
    ensures
        result.0 == CursorRange::one_spec(CharCursor { index: sorted_ends(*cursor).0, prefer_next_row: true }),
        result.1@ == old(buffer)@.subrange(sorted_ends(*cursor).0 as int, sorted_ends(*cursor).1 as int),
        edit_recorded(*old(buffer), *final(buffer), *cursor, result.0, sorted_ends(*cursor).0 as int,
            old(buffer)@.subrange(sorted_ends(*cursor).0 as int, sorted_ends(*cursor).1 as int), Seq::empty(),
            PieceSource::Cut),
{
    let (start, end) = cursor.sorted_indices();
    delete_range_with_source(buffer, cursor, start, end, true, PieceSource::Cut)
}

} // verus!

verus! {

/// Inserting `text` at selection `cursor` of `old` gave `new` and caret
/// `next`: the selection is replaced by `text` with its line breaks in the
/// buffer's preferred line ending, the caret lands after it, and the change is
/// recorded as one operation with `source`.
pub open spec fn text_inserted(old: BufferState, new: BufferState, cursor: CursorRange, text: Seq<char>, source: PieceSource, next: CursorRange) -> bool {
    let (start, end) = sorted_ends(cursor);
    let inserted = normalized(text, line_ending_chars(old.document.preferred_line_ending()));
    &&& next == CursorRange::one_spec(CharCursor { index: (start + inserted.len()) as usize, prefer_next_row: false })
    &&& edit_recorded(old, new, cursor, next, start as int, old@.subrange(start as int, end as int), inserted, source)
}

/// Replaces the selection by `text` with its line breaks in the buffer's
/// preferred line ending; the caret lands after the inserted text. Recorded
/// as one operation with `source`.
pub fn apply_text_insert_with_source(
    buffer: &mut BufferState,
    cursor: &CursorRange,
    text: &str,
    source: PieceSource,
) -> (next: CursorRange)
    requires
        sorted_ends(*cursor).1 <= old(buffer)@.len(),
        old(buffer)@.len() + 2 * text@.len() < usize::MAX,
    ensures
        text_inserted(*old(buffer), *final(buffer), *cursor, text@, source, next),
{
    let (start, end) = cursor.sorted_indices();
    let deleted_text = extract_spans_and_delete_range(buffer, start, end);
    let ghost after_delete = buffer@;
    let normalized_text = normalize_line_endings(text, buffer.document().preferred_line_ending_str());
    let inserted = chars_of(normalized_text.as_str());
    let inserted_chars = inserted.len();
    let _ = buffer.current_file_length();
    let removed = buffer.replace_chars_direct(start, start, inserted.as_slice());
    let new_cursor = CursorRange::one(CharCursor::new(start + inserted_chars));
    assert(deleted_text@ =~= old(buffer)@.subrange(start as int, end as int));
    let ghost mid = buffer@;
    record_edit(
        buffer,
        cursor,
        RecordedEdit { new_cursor, start_char: start, deleted_text, inserted_text: normalized_text },
        source,
    );
    proof {
        let o = old(buffer)@;
        assert(after_delete =~= o.subrange(0, start as int) + o.subrange(end as int, o.len() as int));
        assert(mid =~= o.subrange(0, start as int) + inserted@ + o.subrange(start + (end - start), o.len() as int));
    }
    new_cursor
}

/// Where Backspace starts deleting: the previous word start when the
/// modifiers ask for words, else one character back.
pub open spec fn backspace_start(s: Seq<char>, start: int, modifiers: Modifiers) -> int {
    if wordwise(modifiers) { word_boundary_left(s, start) } else { start - 1 }
}

/// Backspace on `old` with selection `cursor` gave `new` and caret `next`:
/// the selection, or the character (or word) before the caret, is deleted
/// and recorded; at the document start nothing changes.
pub open spec fn backspaced(old: BufferState, new: BufferState, cursor: CursorRange, modifiers: Modifiers, next: CursorRange) -> bool {
    let (start, end) = sorted_ends(cursor);
    if start < end {
        next == CursorRange::one_spec(CharCursor { index: start, prefer_next_row: true })
            && edit_recorded(old, new, cursor, next, start as int,
                old@.subrange(start as int, end as int), Seq::empty(), PieceSource::Edit)
    } else if start == 0 {
        next == cursor && unchanged(old, new)
    } else {
        let from = backspace_start(old@, start as int, modifiers);
        next == CursorRange::one_spec(CharCursor { index: from as usize, prefer_next_row: false })
            && edit_recorded(old, new, cursor, next, from,
                old@.subrange(from, start as int), Seq::empty(), PieceSource::Edit)
    }
}

/// Backspace: deletes the selection, or the character (or word) before the
/// caret; at the document start nothing changes.
pub fn apply_backspace(buffer: &mut BufferState, cursor: &CursorRange, modifiers: &Modifiers) -> (next: CursorRange)
    requires
        sorted_ends(*cursor).1 <= old(buffer)@.len(),
    ensures
        backspaced(*old(buffer), *final(buffer), *cursor, *modifiers, next),
{
    let (start, end) = cursor.sorted_indices();
    if start < end {
        return apply_delete_selection(buffer, cursor);
    }
    if start == 0 {
        return *cursor;
    }
    let delete_start = if crate::cursor::is_wordwise_movement(modifiers) {
        find_word_boundary_left(buffer.document().piece_tree(), start)
    } else {
        start - 1
    };
    apply_char_delete(buffer, cursor, delete_start, start, false)
}

/// Where Delete stops deleting: the next word start when the modifiers ask
/// for words, else one character on; never past the end.
pub open spec fn delete_end(s: Seq<char>, start: int, modifiers: Modifiers) -> int {
    let raw = if wordwise(modifiers) { word_boundary_right(s, start) } else { start + 1 };
    if raw < s.len() { raw } else { s.len() as int }
}

/// Delete on `old` with selection `cursor` gave `new` and caret `next`: the
/// selection, or the character (or word) after the caret, is deleted and
/// recorded; at the document end nothing changes.
pub open spec fn forward_deleted(old: BufferState, new: BufferState, cursor: CursorRange, modifiers: Modifiers, next: CursorRange) -> bool {
    let (start, end) = sorted_ends(cursor);
    if start < end {
        next == CursorRange::one_spec(CharCursor { index: start, prefer_next_row: true })
            && edit_recorded(old, new, cursor, next, start as int,
                old@.subrange(start as int, end as int), Seq::empty(), PieceSource::Edit)
    } else if start >= old@.len() {
        next == cursor && unchanged(old, new)
    } else {
        let to = delete_end(old@, start as int, modifiers);
        next == CursorRange::one_spec(CharCursor { index: start, prefer_next_row: true })
            && edit_recorded(old, new, cursor, next, start as int,
                old@.subrange(start as int, to), Seq::empty(), PieceSource::Edit)
    }
}

/// Delete: deletes the selection, or the character (or word) after the caret;
/// at the document end nothing changes.
pub fn apply_delete(buffer: &mut BufferState, cursor: &CursorRange, modifiers: &Modifiers) -> (next: CursorRange)
    requires
        sorted_ends(*cursor).1 <= old(buffer)@.len(),
    ensures
        forward_deleted(*old(buffer), *final(buffer), *cursor, *modifiers, next),
{
    let (start, end) = cursor.sorted_indices();
    let total = buffer.current_file_length().chars;
    if start < end {
        return apply_delete_selection(buffer, cursor);
    }
    if start >= total {
        return *cursor;
    }
    let raw = if crate::cursor::is_wordwise_movement(modifiers) {
        find_word_boundary_right(buffer.document().piece_tree(), start)
    } else {
        start + 1
    };
    let delete_end = if raw < total { raw } else { total };
    apply_char_delete(buffer, cursor, start, delete_end, true)
}

/// Number of leading spaces of `p`.
pub open spec fn leading_spaces(p: Seq<char>) -> nat
    decreases p.len(),
{
    if p.len() == 0 || p[0] != ' ' { 0 } else { 1 + leading_spaces(p.drop_first()) }
}

/// How many characters an outdent removes from a line that begins with `prefix`:
/// one tab, or all the leading spaces; `None` when it begins with neither.
pub open spec fn outdent_width(prefix: Seq<char>) -> Option<nat> {
    if prefix.len() == 0 {
        None
    } else if prefix[0] == '\t' {
        Some(1)
    } else if prefix[0] == ' ' {
        Some(leading_spaces(prefix))
    } else {
        None
    }
}

/// Characters an outdent removes, judged on the first (up to) four characters of the line.
pub fn leading_outdent_width(line_prefix: &str) -> (width: Option<usize>)
    ensures
        match outdent_width(line_prefix@) {
            Some(w) => width == Some(w as usize) && w >= 1 && w <= line_prefix@.len(),
            None => width is None,
        },
{
    let chars = chars_of(line_prefix);
    if chars.len() == 0 {
        return None;
    }
    if chars[0] == '\t' {
        return Some(1);
    }
    if chars[0] != ' ' {
        return None;
    }
    let mut count: usize = 0;
    assert(chars@.subrange(0, chars@.len() as int) =~= chars@);
    while count < chars.len() && chars[count] == ' '
        invariant
            count <= chars@.len(),
            chars@ == line_prefix@,
            forall|k: int| 0 <= k < count ==> chars@[k] == ' ',
            leading_spaces(chars@) == count + leading_spaces(chars@.subrange(count as int, chars@.len() as int)),
        decreases chars.len() - count,
    {
        proof {
            let rest = chars@.subrange(count as int, chars@.len() as int);
            assert(rest.drop_first() =~= chars@.subrange(count + 1, chars@.len() as int));
        }
        count = count + 1;
    }
    proof {
        let rest = chars@.subrange(count as int, chars@.len() as int);
        if count < chars@.len() {
            assert(rest[0] == chars@[count as int]);
        }
        assert(leading_spaces(rest) == 0);
    }
    Some(count)
}

proof fn lemma_leading_spaces_run(p: Seq<char>)
    ensures
        leading_spaces(p) <= p.len(),
        forall|k: int| 0 <= k < leading_spaces(p) ==> #[trigger] p[k] == ' ',
        leading_spaces(p) < p.len() ==> p[leading_spaces(p) as int] != ' ',
    decreases p.len(),
{
    if p.len() > 0 && p[0] == ' ' {
        let rest = p.drop_first();
        lemma_leading_spaces_run(rest);
        assert forall|k: int| 0 <= k < leading_spaces(p) implies #[trigger] p[k] == ' ' by {
            if k > 0 {
                assert(p[k] == rest[k - 1]);
            }
        }
        if leading_spaces(p) < p.len() {
            assert(p[leading_spaces(p) as int] == rest[leading_spaces(rest) as int]);
        }
    }
}

/// What an outdent removes from a line that begins with `prefix`: a line
/// starting with a tab loses that one tab; a line starting with a space loses
/// exactly its run of leading spaces (at least one, all of them spaces, up to
/// the first other character or the end of the prefix); any other line,
/// empty ones included, is left alone.
pub proof fn outdent_removes_one_tab_or_the_leading_spaces(prefix: Seq<char>)
    ensures
        prefix.len() > 0 && prefix[0] == '\t' ==> outdent_width(prefix) == Some(1nat),
        prefix.len() > 0 && prefix[0] == ' ' ==> outdent_width(prefix) is Some && ({
            let w = outdent_width(prefix)->0;
            &&& 1 <= w <= prefix.len()
            &&& forall|k: int| 0 <= k < w ==> #[trigger] prefix[k] == ' '
            &&& w < prefix.len() ==> prefix[w as int] != ' '
        }),
        prefix.len() == 0 || (prefix[0] != '\t' && prefix[0] != ' ') ==> outdent_width(prefix) is None,
{
    lemma_leading_spaces_run(prefix);
    if prefix.len() > 0 && prefix[0] == ' ' {
        assert(leading_spaces(prefix) >= 1);
    }
}

/// Start and end (line feed included) of the line holding the caret.
pub fn cursor_line_span(buffer: &BufferState, caret: usize) -> (span: (usize, usize))
    ensures
        span.0 == line_start_of(buffer@, line_index_at(buffer@, caret as int)),
        span.1 == line_end_of(buffer@, line_index_at(buffer@, caret as int)),
        span.0 <= span.1 <= buffer@.len(),
{
    let piece_tree = buffer.document().piece_tree();
    let line_index = piece_tree.line_index_at_offset(caret);
    let line_info = piece_tree.line_info(line_index);
    let line_start = line_info.start_char;
    (line_start, line_start + line_info.char_len)
}

/// The first (up to) four characters of `line_start..line_end`.
pub fn line_prefix(buffer: &BufferState, line_start: usize, line_end: usize) -> (prefix: String)
    requires
        line_start <= line_end <= buffer@.len(),
    ensures
        prefix@ == buffer@.subrange(line_start as int,
            if line_end - line_start <= 4 { line_end as int } else { line_start + 4 }),
{
    let end = if line_end - line_start <= 4 { line_end } else { line_start + 4 };
    buffer.document().piece_tree().extract_range(line_start..end)
}

/// Removes `chars_to_remove` characters at the start of a line; returns them.
pub fn remove_line_prefix(buffer: &mut BufferState, line_start: usize, chars_to_remove: usize) -> (deleted: String)
    requires
        line_start + chars_to_remove <= old(buffer)@.len(),
    ensures
        deleted@ == old(buffer)@.subrange(line_start as int, line_start + chars_to_remove),
        chars_to_remove > 0 ==> final(buffer)@ == old(buffer)@.subrange(0, line_start as int)
            + old(buffer)@.subrange(line_start + chars_to_remove, old(buffer)@.len() as int)
            && final(buffer).line_count == newline_count(final(buffer)@) + 1,
        chars_to_remove == 0 ==> *final(buffer) == *old(buffer),
        final(buffer).document.undo_entries() == old(buffer).document.undo_entries(),
        final(buffer).document.redo_entries() == old(buffer).document.redo_entries(),
        final(buffer).document.preferred_line_ending() == old(buffer).document.preferred_line_ending(),
        final(buffer).active_selection == old(buffer).active_selection,
        final(buffer).is_loading_preview == old(buffer).is_loading_preview,
        final(buffer).show_control_chars == old(buffer).show_control_chars,
{
    let _ = buffer.current_file_length();
    let deleted = extract_spans_and_delete_range(buffer, line_start, line_start + chars_to_remove);
    assert(deleted@ =~= old(buffer)@.subrange(line_start as int, line_start + chars_to_remove));
    deleted
}

/// The effect of an outdent on buffer `ob`, giving `nb` and `next`: one
/// leading tab, or the leading spaces among the first four characters, is
/// removed from the line of the selection's primary end and the caret moves
/// back by as much; when the line starts with neither, nothing changes and
/// there is no new selection.
pub open spec fn outdented(ob: BufferState, nb: BufferState, cursor: CursorRange, next: Option<CursorRange>) -> bool {
    let s = ob@;
    let caret = cursor.primary.index;
    let line = line_index_at(s, caret as int);
    let start = line_start_of(s, line);
    let end = line_end_of(s, line);
    let prefix = s.subrange(start, if end - start <= 4 { end } else { start + 4 });
    match outdent_width(prefix) {
        Some(w) => next == Some(CursorRange::one_spec(CharCursor {
                index: caret.saturating_sub(w as usize), prefer_next_row: false }))
            && edit_recorded(ob, nb, cursor, next->0, start,
                s.subrange(start, start + w), Seq::empty(), PieceSource::Edit),
        None => next is None && unchanged(ob, nb),
    }
}

/// Shift+Tab: removes one leading tab, or the leading spaces among the first
/// four characters, from the caret's line; the caret moves back by as much.
/// `None`, with nothing changed, when the line starts with neither.
pub fn apply_outdent(buffer: &mut BufferState, cursor: &CursorRange) -> (next: Option<CursorRange>)
    ensures
        outdented(*old(buffer), *final(buffer), *cursor, next),
{
    let caret = cursor.primary.index;
    let (line_start, line_end) = cursor_line_span(buffer, caret);
    let prefix = line_prefix(buffer, line_start, line_end);
    let chars_to_remove = match leading_outdent_width(prefix.as_str()) {
        Some(width) => width,
        None => {
            return None;
        },
    };
    let ghost before = buffer@;
    let deleted_text = remove_line_prefix(buffer, line_start, chars_to_remove);
    let ghost mid = buffer@;
    let new_caret = caret.saturating_sub(chars_to_remove);
    let new_cursor = CursorRange::one(CharCursor::new(new_caret));
    record_edit(
        buffer,
        cursor,
        RecordedEdit { new_cursor, start_char: line_start, deleted_text, inserted_text: String::new() },
        PieceSource::Edit,
    );
    proof {
        assert(before.subrange(0, line_start as int) + Seq::<char>::empty()
            + before.subrange(line_start + chars_to_remove, before.len() as int) =~= mid);
    }
    Some(new_cursor)
}

} // verus!

verus! {

/// Undo takes a recorded edit back: reverting the operation just recorded
/// gives the text from before it, and redoing it gives the edited text again.
pub proof fn undo_after_edit_restores_text(
    before: BufferState,
    after: BufferState,
    previous: CursorRange,
    next: CursorRange,
    start: int,
    deleted: Seq<char>,
    inserted: Seq<char>,
    source: PieceSource,
)
    requires
        edit_recorded(before, after, previous, next, start, deleted, inserted, source),
        before@.len() < usize::MAX,
        after@.len() < usize::MAX,
    ensures
        revert_edits(after@, after.document.undo_entries().last().record.edits@, 0) == Some(before@),
        apply_edits(before@, after.document.undo_entries().last().record.edits@, 1) == Some(after@),
        after.document.undo_entries().last().record.previous_selection == previous,
{
    let edits = after.document.undo_entries().last().record.edits@;
    let e = edits[0];
    crate::buffer::revert_undoes_apply(before@, e);
    assert(crate::buffer::apply_edit(before@, e) =~= after@);
    assert(crate::buffer::revert_edits(after@, edits, 1) == Some(after@));
    assert(crate::buffer::apply_edits(before@, edits, 0) == Some(before@));
}

} // verus!

verus! {

/// Undo right after a recorded edit gives back the text from before the edit
/// and the selection from before it.
pub proof fn edit_then_undo_restores_text(
    before: BufferState,
    edited: BufferState,
    undone_buffer: BufferState,
    previous: CursorRange,
    next: CursorRange,
    start: int,
    deleted: Seq<char>,
    inserted: Seq<char>,
    source: PieceSource,
    selection: Option<CursorRange>,
)
    requires
        edit_recorded(before, edited, previous, next, start, deleted, inserted, source),
        crate::buffer::undone(edited, undone_buffer, selection),
        before@.len() < usize::MAX,
        edited@.len() < usize::MAX,
    ensures
        undone_buffer@ == before@,
        selection == Some(previous),
{
    undo_after_edit_restores_text(before, edited, previous, next, start, deleted, inserted, source);
}

/// Redo right after undoing a recorded edit gives back the edited text and
/// the selection after the edit.
pub proof fn edit_undo_redo_restores_edit(
    before: BufferState,
    edited: BufferState,
    undone_buffer: BufferState,
    redone_buffer: BufferState,
    previous: CursorRange,
    next: CursorRange,
    start: int,
    deleted: Seq<char>,
    inserted: Seq<char>,
    source: PieceSource,
    undo_selection: Option<CursorRange>,
    redo_selection: Option<CursorRange>,
)
    requires
        edit_recorded(before, edited, previous, next, start, deleted, inserted, source),
        crate::buffer::undone(edited, undone_buffer, undo_selection),
        crate::buffer::redone(undone_buffer, redone_buffer, redo_selection),
        before@.len() < usize::MAX,
        edited@.len() < usize::MAX,
    ensures
        redone_buffer@ == edited@,
        redo_selection == Some(next),
{
    undo_after_edit_restores_text(before, edited, previous, next, start, deleted, inserted, source);
    let last = edited.document.undo_entries().last();
    assert(undone_buffer.document.redo_entries().last() == last);
}

/// Every line break of `s` is written as CR LF: each CR is followed by a
/// LF, and each LF follows a CR.
pub open spec fn crlf_only(s: Seq<char>) -> bool {
    &&& forall|i: int| 0 <= i < s.len() && #[trigger] s[i] == '\r' ==> i + 1 < s.len() && s[i + 1] == '\n'
    &&& forall|i: int| 0 <= i < s.len() && #[trigger] s[i] == '\n' ==> i > 0 && s[i - 1] == '\r'
}

proof fn lemma_crlf_concat(a: Seq<char>, b: Seq<char>)
    requires
        crlf_only(a),
        crlf_only(b),
    ensures
        crlf_only(a + b),
{
    let c = a + b;
    assert forall|i: int| 0 <= i < c.len() && #[trigger] c[i] == '\r' implies i + 1 < c.len() && c[i + 1] == '\n' by {
        if i < a.len() {
            assert(c[i] == a[i]);
            assert(c[i + 1] == a[i + 1]);
        } else {
            assert(c[i] == b[i - a.len()]);
            assert(c[i + 1] == b[i - a.len() + 1]);
        }
    }
    assert forall|i: int| 0 <= i < c.len() && #[trigger] c[i] == '\n' implies i > 0 && c[i - 1] == '\r' by {
        if i < a.len() {
            assert(c[i] == a[i]);
            assert(c[i - 1] == a[i - 1]);
        } else {
            assert(c[i] == b[i - a.len()]);
            if i - a.len() > 0 {
                assert(c[i - 1] == b[i - a.len() - 1]);
            } else {
                assert(false);
            }
        }
    }
}

proof fn lemma_normalized_from_breaks(s: Seq<char>, i: int, preferred: Seq<char>)
    requires
        0 <= i <= s.len(),
        preferred == seq!['\n'] || preferred == seq!['\r', '\n'],
    ensures
        preferred == seq!['\n'] ==> !normalized_from(s, i, preferred).contains('\r'),
        preferred == seq!['\r', '\n'] ==> crlf_only(normalized_from(s, i, preferred)),
    decreases s.len() - i,
{
    if i < s.len() {
        let next = if s[i] == '\r' && i + 1 < s.len() && s[i + 1] == '\n' {
            i + 2
        } else {
            i + 1
        };
        lemma_normalized_from_breaks(s, next, preferred);
        let rest = normalized_from(s, next, preferred);
        let head = if s[i] == '\r' || s[i] == '\n' { preferred } else { seq![s[i]] };
        assert(normalized_from(s, i, preferred) == head + rest);
        if preferred == seq!['\n'] {
            assert(!head.contains('\r'));
            assert(!(head + rest).contains('\r')) by {
                if (head + rest).contains('\r') {
                    let k = choose|k: int| 0 <= k < (head + rest).len() && (head + rest)[k] == '\r';
                    if k < head.len() {
                        assert(head[k] == '\r');
                    } else {
                        assert(rest[k - head.len()] == '\r');
                    }
                }
            }
        } else {
            assert(crlf_only(head));
            lemma_crlf_concat(head, rest);
        }
    } else {
        assert(normalized_from(s, i, preferred) =~= Seq::<char>::empty());
    }
}

/// Inserted text takes the buffer's line ending: with LF preferred no CR is
/// left, and with CR LF preferred every line break is a CR LF pair.
pub proof fn inserted_line_breaks_follow_preference(s: Seq<char>, ending: crate::buffer::LineEnding)
    ensures
        ending == crate::buffer::LineEnding::Lf ==> !normalized(s, line_ending_chars(ending)).contains('\r'),
        ending == crate::buffer::LineEnding::CrLf ==> crlf_only(normalized(s, line_ending_chars(ending))),
{
    lemma_normalized_from_breaks(s, 0, line_ending_chars(ending));
}

} // verus!
