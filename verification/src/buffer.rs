//! The text buffer the editor works on: document text, preferred line
//! ending, and the undo/redo history of text operations.
use vstd::prelude::*;
use crate::piece_tree::{PieceTreeLite, newline_count};
use crate::text::{chars_of, string_of};
use crate::types::{CursorRange, EditOperation, OperationRecord};

verus! {

/// What produced a piece of text.
#[derive(Clone, Copy, Debug, PartialEq, Eq, Structural)]
pub enum PieceSource {
    Original,
    Edit,
    Paste,
    Cut,
}

/// Line ending used when the editor inserts line breaks.
#[derive(Clone, Copy, Debug, PartialEq, Eq, Structural)]
pub enum LineEnding {
    Lf,
    CrLf,
}

/// The characters of a line ending.
pub open spec fn line_ending_chars(ending: LineEnding) -> Seq<char> {
    match ending {
        LineEnding::Lf => seq!['\n'],
        LineEnding::CrLf => seq!['\r', '\n'],
    }
}

/// The line ending of the first line break at or after `i`; LF when there is none.
pub open spec fn detected_line_ending_from(s: Seq<char>, i: int) -> LineEnding
    decreases s.len() - i,
{
    if i < 0 || i >= s.len() {
        LineEnding::Lf
    } else if s[i] == '\n' {
        if i > 0 && s[i - 1] == '\r' { LineEnding::CrLf } else { LineEnding::Lf }
    } else {
        detected_line_ending_from(s, i + 1)
    }
}

/// The line ending of the first line break; LF when there is none.
pub open spec fn detected_line_ending(s: Seq<char>) -> LineEnding {
    detected_line_ending_from(s, 0)
}

/// A recorded operation and what produced it.
#[derive(Clone, Debug)]
pub struct HistoryEntry {
    pub record: OperationRecord,
    pub source: PieceSource,
}

/// `text` with one edit applied: its deleted span replaced by its inserted text.
pub open spec fn apply_edit(text: Seq<char>, e: EditOperation) -> Seq<char> {
    text.subrange(0, e.start_char as int) + e.inserted_text@
        + text.subrange(e.start_char + e.deleted_text@.len(), text.len() as int)
}

/// `text` with one edit undone: its inserted text replaced by what it deleted.
pub open spec fn revert_edit(text: Seq<char>, e: EditOperation) -> Seq<char> {
    text.subrange(0, e.start_char as int) + e.deleted_text@
        + text.subrange(e.start_char + e.inserted_text@.len(), text.len() as int)
}

/// `text` with edits `0..n` applied in order, if each fits the text it meets.
pub open spec fn apply_edits(text: Seq<char>, edits: Seq<EditOperation>, n: int) -> Option<Seq<char>>
    decreases n,
{
    if n <= 0 {
        Some(text)
    } else {
        match apply_edits(text, edits, n - 1) {
            Some(t) => if edits[n - 1].start_char + edits[n - 1].deleted_text@.len() <= t.len()
                && apply_edit(t, edits[n - 1]).len() < usize::MAX {
                Some(apply_edit(t, edits[n - 1]))
            } else {
                None
            },
            None => None,
        }
    }
}

/// `text` with edits `n..` undone, last first, if each fits the text it meets.
pub open spec fn revert_edits(text: Seq<char>, edits: Seq<EditOperation>, n: int) -> Option<Seq<char>>
    decreases edits.len() - n,
{
    if n < 0 || n >= edits.len() {
        Some(text)
    } else {
        match revert_edits(text, edits, n + 1) {
            Some(t) => if edits[n].start_char + edits[n].inserted_text@.len() <= t.len()
                && revert_edit(t, edits[n]).len() < usize::MAX {
                Some(revert_edit(t, edits[n]))
            } else {
                None
            },
            None => None,
        }
    }
}

/// Document text with its preferred line ending and operation history.
pub struct TextDocument {
    tree: PieceTreeLite,
    line_ending: LineEnding,
    history: Vec<HistoryEntry>,
    redo: Vec<HistoryEntry>,
}

impl TextDocument {
    /// The text.
    pub closed spec fn text_view(&self) -> Seq<char> {
        self.tree@
    }

    /// Operations that can be undone, oldest first.
    pub closed spec fn undo_entries(&self) -> Seq<HistoryEntry> {
        self.history@
    }

    /// Operations that can be redone, most recently undone last.
    pub closed spec fn redo_entries(&self) -> Seq<HistoryEntry> {
        self.redo@
    }

    /// The line ending used for inserted line breaks.
    pub closed spec fn preferred_line_ending(&self) -> LineEnding {
        self.line_ending
    }

    /// The document text as a line-indexed tree.
    pub fn piece_tree(&self) -> (tree: &PieceTreeLite)
        ensures
            tree@ == self.text_view(),
    {
        &self.tree
    }

    /// The preferred line ending as text.
    pub fn preferred_line_ending_str(&self) -> (ending: &'static str)
        ensures
            ending@ == line_ending_chars(self.preferred_line_ending()),
    {
        proof {
            reveal_strlit("\n");
            reveal_strlit("\r\n");
        }
        match self.line_ending {
            LineEnding::Lf => "\n",
            LineEnding::CrLf => "\r\n",
        }
    }

    /// The most recent undoable operation.
    pub fn latest_operation_record(&self) -> (record: Option<&OperationRecord>)
        ensures
            match record {
                Some(r) => self.undo_entries().len() > 0 && *r == self.undo_entries().last().record,
                None => self.undo_entries().len() == 0,
            },
    {
        if self.history.len() > 0 {
            Some(&self.history[self.history.len() - 1].record)
        } else {
            None
        }
    }

    /// The undoable operations with their sources, oldest first.
    pub fn history_entries(&self) -> (entries: &[HistoryEntry])
        ensures
            entries@ == self.undo_entries(),
    {
        self.history.as_slice()
    }

    /// How many operations can be undone.
    pub fn operation_undo_depth(&self) -> (depth: usize)
        ensures
            depth == self.undo_entries().len(),
    {
        self.history.len()
    }
}

fn detect_line_ending(chars: &Vec<char>) -> (ending: LineEnding)
    ensures
        ending == detected_line_ending(chars@),
{
    let mut i: usize = 0;
    while i < chars.len()
        invariant
            i <= chars.len(),
            detected_line_ending_from(chars@, i as int) == detected_line_ending(chars@),
        decreases chars.len() - i,
    {
        if chars[i] == '\n' {
            return if i > 0 && chars[i - 1] == '\r' { LineEnding::CrLf } else { LineEnding::Lf };
        }
        i = i + 1;
    }
    LineEnding::Lf
}

/// Character and line counts of a buffer.
pub struct FileLength {
    pub chars: usize,
    pub lines: usize,
}

/// Why a batch of replacements was refused.
#[derive(Clone, Copy, Debug, PartialEq, Eq, Structural)]
pub enum EditRangeError {
    /// A range was reversed or reached past the end of the text it applies to.
    OutOfBounds,
    /// The text would grow past what can be indexed.
    TooLong,
}

/// An open document: its text and history, and the editor state shared by its views.
pub struct BufferState {
    pub id: u64,
    pub name: String,
    pub path: Option<String>,
    pub document: TextDocument,
    pub line_count: usize,
    pub active_selection: Option<std::ops::Range<usize>>,
    pub is_loading_preview: bool,
    pub show_control_chars: bool,
}

impl View for BufferState {
    type V = Seq<char>;

    open spec fn view(&self) -> Seq<char> {
        self.document.text_view()
    }
}

impl BufferState {
    /// A buffer named `name` at `path` holding `text`, with an empty history
    /// and the first buffer id.
    pub fn new(name: String, text: String, path: Option<String>) -> (buffer: Self)
        requires
            text@.len() < usize::MAX,
        ensures
            buffer@ == text@,
            buffer.id == 1,
            buffer.name == name,
            buffer.path == path,
            buffer.document.text_view() == text@,
            buffer.document.undo_entries().len() == 0,
            buffer.document.redo_entries().len() == 0,
            buffer.document.preferred_line_ending() == detected_line_ending(text@),
            buffer.line_count == newline_count(text@) + 1,
            buffer.active_selection is None,
            !buffer.is_loading_preview,
            !buffer.show_control_chars,
    {
        let chars = chars_of(text.as_str());
        let line_ending = detect_line_ending(&chars);
        let tree = PieceTreeLite::from_chars(chars);
        let newlines = tree.metrics().newlines;
        BufferState {
            id: 1,
            name,
            path,
            document: TextDocument { tree, line_ending, history: Vec::new(), redo: Vec::new() },
            line_count: newlines + 1,
            active_selection: None,
            is_loading_preview: false,
            show_control_chars: false,
        }
    }

    /// The buffer's document.
    pub fn document(&self) -> (doc: &TextDocument)
        ensures
            *doc == self.document,
    {
        &self.document
    }

    /// The whole text.
    pub fn text(&self) -> (text: String)
        ensures
            text@ == self@,
    {
        self.document.tree.text()
    }

    /// Character and line counts.
    pub fn current_file_length(&self) -> (length: FileLength)
        ensures
            length.chars == self@.len(),
            length.lines == newline_count(self@) + 1,
            length.chars < usize::MAX,
    {
        let metrics = self.document.tree.metrics();
        let _ = self.document.tree.len_chars();
        FileLength { chars: metrics.chars, lines: metrics.newlines + 1 }
    }

    /// Replaces `start..end` by `inserted` without recording it; returns the
    /// replaced characters.
    pub fn replace_chars_direct(&mut self, start: usize, end: usize, inserted: &[char]) -> (deleted: Vec<char>)
        requires
            start <= end <= old(self)@.len(),
            old(self)@.len() - (end - start) + inserted@.len() < usize::MAX,
        ensures
            final(self)@ == old(self)@.subrange(0, start as int) + inserted@
                + old(self)@.subrange(end as int, old(self)@.len() as int),
            deleted@ == old(self)@.subrange(start as int, end as int),
            final(self).document.undo_entries() == old(self).document.undo_entries(),
            final(self).document.redo_entries() == old(self).document.redo_entries(),
            final(self).document.preferred_line_ending() == old(self).document.preferred_line_ending(),
            final(self).line_count == newline_count(final(self)@) + 1,
            final(self).active_selection == old(self).active_selection,
            final(self).is_loading_preview == old(self).is_loading_preview,
            final(self).show_control_chars == old(self).show_control_chars,
            final(self).id == old(self).id,
    {
        let deleted_text = self.document.tree.extract_range(start..end);
        let deleted = chars_of(deleted_text.as_str());
        let tree = self.document.tree.replaced(start, end, inserted);
        let newlines = tree.metrics().newlines;
        self.document.tree = tree;
        self.line_count = newlines + 1;
        deleted
    }

    /// Records an operation as the latest undoable one; nothing is left to redo.
    pub fn push_text_edit_operation_with_source(&mut self, record: OperationRecord, source: PieceSource)
        ensures
            final(self)@ == old(self)@,
            final(self).document.undo_entries() == old(self).document.undo_entries().push(
                HistoryEntry { record, source }),
            final(self).document.redo_entries().len() == 0,
            final(self).document.preferred_line_ending() == old(self).document.preferred_line_ending(),
            final(self).line_count == old(self).line_count,
            final(self).active_selection == old(self).active_selection,
            final(self).is_loading_preview == old(self).is_loading_preview,
            final(self).show_control_chars == old(self).show_control_chars,
            final(self).id == old(self).id,
    {
        self.document.history.push(HistoryEntry { record, source });
        self.document.redo = Vec::new();
    }
}

} // verus!

verus! {

/// Undoing an edit right after making it gives back the text it was made on.
pub proof fn revert_undoes_apply(text: Seq<char>, e: EditOperation)
    requires
        e.start_char + e.deleted_text@.len() <= text.len(),
        e.deleted_text@ == text.subrange(e.start_char as int, e.start_char + e.deleted_text@.len()),
    ensures
        e.start_char + e.inserted_text@.len() <= apply_edit(text, e).len(),
        revert_edit(apply_edit(text, e), e) == text,
{
    let s = e.start_char as int;
    let d = e.deleted_text@.len() as int;
    let applied = apply_edit(text, e);
    assert(applied.subrange(0, s) =~= text.subrange(0, s));
    assert(applied.subrange(s + e.inserted_text@.len(), applied.len() as int) =~= text.subrange(s + d, text.len() as int));
    assert(revert_edit(applied, e) =~= text);
}

/// Redoing an edit right after undoing it gives back the text it was undone on.
pub proof fn apply_redoes_revert(text: Seq<char>, e: EditOperation)
    requires
        e.start_char + e.inserted_text@.len() <= text.len(),
        e.inserted_text@ == text.subrange(e.start_char as int, e.start_char + e.inserted_text@.len()),
    ensures
        e.start_char + e.deleted_text@.len() <= revert_edit(text, e).len(),
        apply_edit(revert_edit(text, e), e) == text,
{
    let s = e.start_char as int;
    let i = e.inserted_text@.len() as int;
    let reverted = revert_edit(text, e);
    assert(reverted.subrange(0, s) =~= text.subrange(0, s));
    assert(reverted.subrange(s + e.deleted_text@.len(), reverted.len() as int) =~= text.subrange(s + i, text.len() as int));
    assert(apply_edit(reverted, e) =~= text);
}

/// `text` with `remove_len` characters at `start` replaced by `inserted`, or
/// `None` when the span does not fit or the result would be too long.
fn splice(text: &Vec<char>, start: usize, remove_len: usize, inserted: &Vec<char>) -> (out: Option<Vec<char>>)
    ensures
        match out {
            Some(v) => start + remove_len <= text@.len() && v@ == text@.subrange(0, start as int) + inserted@
                + text@.subrange(start + remove_len, text@.len() as int) && v@.len() < usize::MAX,
            None => !(start + remove_len <= text@.len() && text@.len() - remove_len + inserted@.len() < usize::MAX),
        },
{
    if remove_len > text.len() || start > text.len() - remove_len {
        return None;
    }
    let keep = text.len() - remove_len;
    if inserted.len() >= usize::MAX - keep {
        return None;
    }
    let mut v: Vec<char> = Vec::new();
    let mut i: usize = 0;
    while i < start
        invariant
            i <= start,
            start + remove_len <= text@.len(),
            v@ == text@.subrange(0, i as int),
        decreases start - i,
    {
        v.push(text[i]);
        i = i + 1;
        assert(v@ =~= text@.subrange(0, i as int));
    }
    let mut k: usize = 0;
    while k < inserted.len()
        invariant
            k <= inserted@.len(),
            v@ == text@.subrange(0, start as int) + inserted@.take(k as int),
        decreases inserted.len() - k,
    {
        v.push(inserted[k]);
        k = k + 1;
        assert(v@ =~= text@.subrange(0, start as int) + inserted@.take(k as int));
    }
    assert(inserted@.take(k as int) =~= inserted@);
    let mut j = start + remove_len;
    while j < text.len()
        invariant
            start + remove_len <= j <= text@.len(),
            v@ == text@.subrange(0, start as int) + inserted@ + text@.subrange(start + remove_len, j as int),
        decreases text@.len() - j,
    {
        v.push(text[j]);
        j = j + 1;
        assert(v@ =~= text@.subrange(0, start as int) + inserted@ + text@.subrange(start + remove_len, j as int));
    }
    Some(v)
}

proof fn lemma_revert_none_propagates(text: Seq<char>, edits: Seq<EditOperation>, j: int, m: int)
    requires
        0 <= j <= m < edits.len(),
        revert_edits(text, edits, m) is None,
    ensures
        revert_edits(text, edits, j) is None,
    decreases m - j,
{
    if j < m {
        lemma_revert_none_propagates(text, edits, j + 1, m);
    }
}

proof fn lemma_apply_none_propagates(text: Seq<char>, edits: Seq<EditOperation>, j: int, m: int)
    requires
        0 < m <= j <= edits.len(),
        apply_edits(text, edits, m) is None,
    ensures
        apply_edits(text, edits, j) is None,
    decreases j - m,
{
    if m < j {
        lemma_apply_none_propagates(text, edits, j - 1, m);
    }
}

/// Undo on `old` gave `new` and `selection`: the latest operation's edits
/// are reverted, last first, and it moves to the redo list, giving back the
/// selection from before it; with nothing to undo, or edits that do not fit
/// the text, nothing changes and there is no selection.
pub open spec fn undone(old: BufferState, new: BufferState, selection: Option<CursorRange>) -> bool {
    let entries = old.document.undo_entries();
    &&& if entries.len() == 0 {
        selection is None && new == old
    } else {
        let last = entries.last();
        match revert_edits(old@, last.record.edits@, 0) {
            Some(t) => selection == Some(last.record.previous_selection)
                && new@ == t
                && new.document.undo_entries() == entries.drop_last()
                && new.document.redo_entries() == old.document.redo_entries().push(last)
                && new.line_count == newline_count(t) + 1,
            None => selection is None && new == old,
        }
    }
    &&& new.document.preferred_line_ending() == old.document.preferred_line_ending()
    &&& new.active_selection == old.active_selection
    &&& new.is_loading_preview == old.is_loading_preview
    &&& new.show_control_chars == old.show_control_chars
}

/// Redo on `old` gave `new` and `selection`: the most recently undone
/// operation's edits are applied in order and it becomes undoable again,
/// giving back the selection after it; with nothing to redo, or edits that do
/// not fit the text, nothing changes and there is no selection.
pub open spec fn redone(old: BufferState, new: BufferState, selection: Option<CursorRange>) -> bool {
    let entries = old.document.redo_entries();
    &&& if entries.len() == 0 {
        selection is None && new == old
    } else {
        let last = entries.last();
        match apply_edits(old@, last.record.edits@, last.record.edits@.len() as int) {
            Some(t) => selection == Some(last.record.next_selection)
                && new@ == t
                && new.document.redo_entries() == entries.drop_last()
                && new.document.undo_entries() == old.document.undo_entries().push(last)
                && new.line_count == newline_count(t) + 1,
            None => selection is None && new == old,
        }
    }
    &&& new.document.preferred_line_ending() == old.document.preferred_line_ending()
    &&& new.active_selection == old.active_selection
    &&& new.is_loading_preview == old.is_loading_preview
    &&& new.show_control_chars == old.show_control_chars
}

impl BufferState {
    /// Undoes the latest operation: its edits are reverted, last first, and it
    /// moves to the redo list. Returns the selection from before it, or `None`
    /// when there is nothing to undo or its edits do not fit the text.
    pub fn undo_last_text_operation(&mut self) -> (selection: Option<CursorRange>)
        ensures
            undone(*old(self), *final(self), selection),
    {
        let count = self.document.history.len();
        if count == 0 {
            return None;
        }
        let ghost edits = self.document.history@[count - 1].record.edits@;
        let _ = self.document.tree.len_chars();
        let mut text = chars_of(self.document.tree.text().as_str());
        let mut k = self.document.history[count - 1].record.edits.len();
        while k > 0
            invariant
                count == self.document.history@.len(),
                count > 0,
                edits == self.document.history@[count - 1].record.edits@,
                k <= edits.len(),
                revert_edits(self@, edits, k as int) == Some(text@),
                text@.len() < usize::MAX,
            decreases k,
        {
            let e = &self.document.history[count - 1].record.edits[k - 1];
            let deleted = chars_of(e.deleted_text.as_str());
            let inserted = chars_of(e.inserted_text.as_str());
            assert(*e == edits[k - 1]);
            proof {
                let t = text@;
                let ee = edits[k - 1];
                if ee.start_char + ee.inserted_text@.len() <= t.len() {
                    assert(revert_edit(t, ee).len() == t.len() - ee.inserted_text@.len() + ee.deleted_text@.len());
                }
            }
            match splice(&text, e.start_char, inserted.len(), &deleted) {
                Some(v) => {
                    text = v;
                },
                None => {
                    proof {
                        let ee = edits[k - 1];
                        assert(inserted@ == ee.inserted_text@);
                        assert(deleted@ == ee.deleted_text@);
                        assert(revert_edits(self@, edits, (k - 1) as int) is None);
                        lemma_revert_none_propagates(self@, edits, 0, (k - 1) as int);
                    }
                    return None;
                },
            }
            k = k - 1;
        }
        let entry = self.document.history.pop().unwrap();
        let selection = entry.record.previous_selection;
        let tree = PieceTreeLite::from_chars(text);
        let newlines = tree.metrics().newlines;
        self.document.tree = tree;
        self.line_count = newlines + 1;
        self.document.redo.push(entry);
        Some(selection)
    }
}

} // verus!

verus! {

impl BufferState {
    /// Redoes the most recently undone operation: its edits are applied in
    /// order and it becomes undoable again. Returns the selection after it, or
    /// `None` when there is nothing to redo or its edits do not fit the text.
    pub fn redo_last_text_operation(&mut self) -> (selection: Option<CursorRange>)
        ensures
            redone(*old(self), *final(self), selection),
    {
        let count = self.document.redo.len();
        if count == 0 {
            return None;
        }
        let ghost edits = self.document.redo@[count - 1].record.edits@;
        let _ = self.document.tree.len_chars();
        let mut text = chars_of(self.document.tree.text().as_str());
        let n = self.document.redo[count - 1].record.edits.len();
        let mut k: usize = 0;
        while k < n
            invariant
                count == self.document.redo@.len(),
                count > 0,
                edits == self.document.redo@[count - 1].record.edits@,
                n == edits.len(),
                k <= n,
                apply_edits(self@, edits, k as int) == Some(text@),
                text@.len() < usize::MAX,
            decreases n - k,
        {
            let e = &self.document.redo[count - 1].record.edits[k];
            let deleted = chars_of(e.deleted_text.as_str());
            let inserted = chars_of(e.inserted_text.as_str());
            assert(*e == edits[k as int]);
            proof {
                let t = text@;
                let ee = edits[k as int];
                if ee.start_char + ee.deleted_text@.len() <= t.len() {
                    assert(apply_edit(t, ee).len() == t.len() - ee.deleted_text@.len() + ee.inserted_text@.len());
                }
            }
            match splice(&text, e.start_char, deleted.len(), &inserted) {
                Some(v) => {
                    text = v;
                },
                None => {
                    proof {
                        assert(apply_edits(self@, edits, (k + 1) as int) is None);
                        lemma_apply_none_propagates(self@, edits, n as int, (k + 1) as int);
                    }
                    return None;
                },
            }
            k = k + 1;
        }
        let entry = self.document.redo.pop().unwrap();
        let selection = entry.record.next_selection;
        let tree = PieceTreeLite::from_chars(text);
        let newlines = tree.metrics().newlines;
        self.document.tree = tree;
        self.line_count = newlines + 1;
        self.document.history.push(entry);
        Some(selection)
    }
}

} // verus!

verus! {

/// `text` after the replacements `0..n` are made in order, each range taken in
/// the text left by the previous ones; or why they cannot all be made.
pub open spec fn replaced_text(
    text: Seq<char>,
    ranges: Seq<std::ops::Range<usize>>,
    inserts: Seq<Seq<char>>,
    n: int,
) -> Result<Seq<char>, EditRangeError>
    decreases n,
{
    if n <= 0 {
        Ok(text)
    } else {
        match replaced_text(text, ranges, inserts, n - 1) {
            Ok(t) => {
                let r = ranges[n - 1];
                if !(r.start <= r.end && r.end <= t.len()) {
                    Err(EditRangeError::OutOfBounds)
                } else {
                    let out = t.subrange(0, r.start as int) + inserts[n - 1] + t.subrange(r.end as int, t.len() as int);
                    if out.len() < usize::MAX { Ok(out) } else { Err(EditRangeError::TooLong) }
                }
            },
            Err(e) => Err(e),
        }
    }
}

proof fn lemma_revert_pushed(t: Seq<char>, es: Seq<EditOperation>, e: EditOperation, j: int)
    requires
        0 <= j <= es.len(),
        e.start_char + e.inserted_text@.len() <= t.len(),
        revert_edit(t, e).len() < usize::MAX,
    ensures
        revert_edits(t, es.push(e), j) == revert_edits(revert_edit(t, e), es, j),
    decreases es.len() - j,
{
    let es2 = es.push(e);
    if j < es.len() {
        lemma_revert_pushed(t, es, e, j + 1);
        assert(es2[j] == es[j]);
    } else {
        assert(es2[j] == e);
        assert(revert_edits(t, es2, j + 1) == Some(t));
    }
}

proof fn lemma_apply_prefix(t: Seq<char>, es: Seq<EditOperation>, e: EditOperation, j: int)
    requires
        0 <= j <= es.len(),
    ensures
        apply_edits(t, es.push(e), j) == apply_edits(t, es, j),
    decreases j,
{
    if j > 0 {
        lemma_apply_prefix(t, es, e, j - 1);
        assert(es.push(e)[j - 1] == es[j - 1]);
    }
}

proof fn lemma_replaced_err_propagates(
    text: Seq<char>,
    ranges: Seq<std::ops::Range<usize>>,
    inserts: Seq<Seq<char>>,
    m: int,
    n: int,
)
    requires
        0 < m <= n,
        replaced_text(text, ranges, inserts, m) is Err,
    ensures
        replaced_text(text, ranges, inserts, n) == replaced_text(text, ranges, inserts, m),
    decreases n - m,
{
    if m < n {
        lemma_replaced_err_propagates(text, ranges, inserts, m, n - 1);
    }
}

/// The replacement ranges of a batch, in order.
pub open spec fn batch_ranges(replacements: Seq<(std::ops::Range<usize>, String)>) -> Seq<std::ops::Range<usize>> {
    replacements.map_values(|r: (std::ops::Range<usize>, String)| r.0)
}

/// The replacement texts of a batch, in order.
pub open spec fn batch_texts(replacements: Seq<(std::ops::Range<usize>, String)>) -> Seq<Seq<char>> {
    replacements.map_values(|r: (std::ops::Range<usize>, String)| r.1@)
}

impl BufferState {
    /// Makes the replacements in order (each range in the text left by the
    /// previous ones) and records them as one undoable operation from
    /// `previous` to `next`. Refused, with nothing changed, when a range does
    /// not fit or the text would grow too long.
    pub fn replace_char_ranges_with_undo(
        &mut self,
        replacements: &[(std::ops::Range<usize>, String)],
        previous: CursorRange,
        next: CursorRange,
    ) -> (result: Result<(), EditRangeError>)
        ensures
            match replaced_text(old(self)@, batch_ranges(replacements@), batch_texts(replacements@),
                replacements@.len() as int) {
                Ok(t) => {
                    &&& result is Ok
                    &&& final(self)@ == t
                    &&& final(self).document.undo_entries().len() == old(self).document.undo_entries().len() + 1
                    &&& final(self).document.undo_entries().drop_last() == old(self).document.undo_entries()
                    &&& final(self).document.redo_entries().len() == 0
                    &&& ({
                        let entry = final(self).document.undo_entries().last();
                        &&& entry.source == PieceSource::Edit
                        &&& entry.record.previous_selection == previous
                        &&& entry.record.next_selection == next
                        &&& entry.record.edits@.len() == replacements@.len()
                        &&& forall|k: int| 0 <= k < replacements@.len() ==>
                            (#[trigger] entry.record.edits@[k]).start_char == replacements@[k].0.start
                            && entry.record.edits@[k].inserted_text@ == replacements@[k].1@
                            && entry.record.edits@[k].deleted_text@.len() == replacements@[k].0.end - replacements@[k].0.start
                        &&& apply_edits(old(self)@, entry.record.edits@, replacements@.len() as int) == Some(t)
                        &&& revert_edits(t, entry.record.edits@, 0) == Some(old(self)@)
                    })
                    &&& final(self).line_count == newline_count(t) + 1
                },
                Err(e) => result == Err::<(), EditRangeError>(e) && *final(self) == *old(self),
            },
            final(self).document.preferred_line_ending() == old(self).document.preferred_line_ending(),
            final(self).active_selection == old(self).active_selection,
            final(self).is_loading_preview == old(self).is_loading_preview,
            final(self).show_control_chars == old(self).show_control_chars,
    {
        let ghost ranges = batch_ranges(replacements@);
        let ghost inserts = batch_texts(replacements@);
        let _ = self.document.tree.len_chars();
        let mut text = chars_of(self.document.tree.text().as_str());
        let mut edits: Vec<EditOperation> = Vec::new();
        let mut k: usize = 0;
        while k < replacements.len()
            invariant
                k <= replacements@.len(),
                ranges == batch_ranges(replacements@),
                inserts == batch_texts(replacements@),
                replaced_text(self@, ranges, inserts, k as int) == Ok::<Seq<char>, EditRangeError>(text@),
                text@.len() < usize::MAX,
                edits@.len() == k,
                forall|j: int| 0 <= j < k ==>
                    (#[trigger] edits@[j]).start_char == replacements@[j].0.start
                    && edits@[j].inserted_text@ == replacements@[j].1@
                    && edits@[j].deleted_text@.len() == replacements@[j].0.end - replacements@[j].0.start,
                apply_edits(self@, edits@, k as int) == Some(text@),
                revert_edits(text@, edits@, 0) == Some(self@),
            decreases replacements.len() - k,
        {
            let start = replacements[k].0.start;
            let end = replacements[k].0.end;
            let inserted = chars_of(replacements[k].1.as_str());
            assert(ranges[k as int] == replacements@[k as int].0);
            assert(inserts[k as int] == replacements@[k as int].1@);
            if !(start <= end && end <= text.len()) {
                proof {
                    lemma_replaced_err_propagates(self@, ranges, inserts, (k + 1) as int, replacements@.len() as int);
                }
                return Err(EditRangeError::OutOfBounds);
            }
            match splice(&text, start, end - start, &inserted) {
                Some(v) => {
                    let deleted_text = crate::text::string_of_range(text.as_slice(), start, end);
                    let ghost before = text@;
                    let op = EditOperation {
                        start_char: start,
                        deleted_text,
                        inserted_text: crate::text::string_of(inserted.as_slice()),
                    };
                    proof {
                        assert(op.deleted_text@ == before.subrange(start as int, end as int));
                        assert(apply_edit(before, op) =~= v@);
                        revert_undoes_apply(before, op);
                        lemma_revert_pushed(v@, edits@, op, 0);
                        lemma_apply_prefix(self@, edits@, op, k as int);
                        assert(edits@.push(op)[k as int] == op);
                    }
                    edits.push(op);
                    text = v;
                },
                None => {
                    proof {
                        lemma_replaced_err_propagates(self@, ranges, inserts, (k + 1) as int, replacements@.len() as int);
                    }
                    return Err(EditRangeError::TooLong);
                },
            }
            k = k + 1;
        }
        let tree = PieceTreeLite::from_chars(text);
        let newlines = tree.metrics().newlines;
        self.document.tree = tree;
        self.line_count = newlines + 1;
        self.push_text_edit_operation_with_source(
            OperationRecord { previous_selection: previous, next_selection: next, edits },
            PieceSource::Edit,
        );
        Ok(())
    }
}

} // verus!
