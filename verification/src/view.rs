//! Per-view editor state: selection, pending caret reveal, IME composition,
//! and the search overlays shown in the view.
use vstd::prelude::*;
use crate::highlights::{SearchHighlightState, SearchReplacementPreview};
use crate::types::CursorRange;

verus! {

/// How the view should scroll to reveal the caret.
#[derive(Clone, Copy, Debug, PartialEq, Eq, Structural)]
pub enum CursorRevealMode {
    /// Scroll as little as needed, vertically and horizontally.
    KeepVisible,
    /// Scroll only horizontally.
    KeepHorizontalVisible,
    /// Center the caret.
    Center,
}

/// Text being composed by an input method, not yet committed, with the
/// characters the input method marks as active.
#[derive(Clone, Debug, PartialEq, Eq)]
pub struct ImePreeditState {
    pub text: String,
    pub active_range_chars: Option<std::ops::Range<usize>>,
}

impl ImePreeditState {
    /// Composition state for `text` with the given active range.
    pub fn new(text: String, active_range_chars: Option<std::ops::Range<usize>>) -> (state: Self)
        ensures
            state.text == text,
            state.active_range_chars == active_range_chars,
    {
        ImePreeditState { text, active_range_chars }
    }
}

/// State of one editor view onto a buffer.
pub struct EditorViewState {
    pub id: u64,
    pub cursor_range: Option<CursorRange>,
    pub pending_cursor_range: Option<CursorRange>,
    pub cursor_reveal: Option<CursorRevealMode>,
    pub ime_preedit: Option<ImePreeditState>,
    pub ime_output_published: bool,
    pub editor_has_focus: bool,
    pub search_highlights: SearchHighlightState,
    pub search_replacement_preview: Option<SearchReplacementPreview>,
}

impl EditorViewState {
    /// A view with no selection, no pending reveal and no overlays.
    pub fn new(id: u64) -> (view: Self)
        ensures
            view.id == id,
            view.cursor_range is None,
            view.pending_cursor_range is None,
            view.cursor_reveal is None,
            view.ime_preedit is None,
            !view.ime_output_published,
            !view.editor_has_focus,
            view.search_highlights.ranges@.len() == 0,
            view.search_highlights.active_range_index is None,
            view.search_replacement_preview is None,
    {
        EditorViewState {
            id,
            cursor_range: None,
            pending_cursor_range: None,
            cursor_reveal: None,
            ime_preedit: None,
            ime_output_published: false,
            editor_has_focus: false,
            search_highlights: SearchHighlightState::new(),
            search_replacement_preview: None,
        }
    }

    /// Asks the view to reveal the caret in the given way.
    pub fn request_cursor_reveal(&mut self, mode: CursorRevealMode)
        ensures
            *final(self) == (EditorViewState { cursor_reveal: Some(mode), ..*old(self) }),
    {
        self.cursor_reveal = Some(mode);
    }

    /// Drops any pending caret reveal.
    pub fn clear_cursor_reveal(&mut self)
        ensures
            *final(self) == (EditorViewState { cursor_reveal: None, ..*old(self) }),
    {
        self.cursor_reveal = None;
    }

    /// The pending caret reveal, if any.
    pub fn cursor_reveal_mode(&self) -> (mode: Option<CursorRevealMode>)
        ensures
            mode == self.cursor_reveal,
    {
        self.cursor_reveal
    }

    /// Forgets the IME output published for this view.
    pub fn clear_ime_output(&mut self)
        ensures
            *final(self) == (EditorViewState { ime_output_published: false, ..*old(self) }),
    {
        self.ime_output_published = false;
    }

    /// Records that IME output was published; true when it was not already.
    pub fn mark_ime_output(&mut self) -> (newly: bool)
        ensures
            newly == !old(self).ime_output_published,
            *final(self) == (EditorViewState { ime_output_published: true, ..*old(self) }),
    {
        let newly = !self.ime_output_published;
        self.ime_output_published = true;
        newly
    }

    /// Sets the selection.
    pub fn set_cursor_range_anchored(&mut self, cursor_range: CursorRange)
        ensures
            *final(self) == (EditorViewState { cursor_range: Some(cursor_range), ..*old(self) }),
    {
        self.cursor_range = Some(cursor_range);
    }
}

} // verus!
