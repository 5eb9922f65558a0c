//! Search highlights and replacement previews as the editor receives them.
use vstd::prelude::*;

verus! {

/// Search match ranges (document characters) and which of them is active.
pub struct SearchHighlightState {
    pub ranges: Vec<std::ops::Range<usize>>,
    pub active_range_index: Option<usize>,
}

impl SearchHighlightState {
    /// No ranges and no active range.
    pub fn new() -> (state: Self)
        ensures
            state.ranges@.len() == 0,
            state.active_range_index is None,
    {
        SearchHighlightState { ranges: Vec::new(), active_range_index: None }
    }
}

/// One pending replacement: the matched range and its replacement text.
pub struct SearchReplacementPreviewEntry {
    pub range: std::ops::Range<usize>,
    pub replacement: String,
}

/// The replacements a "replace all" would make, shown in place before it runs.
pub struct SearchReplacementPreview {
    pub entries: Vec<SearchReplacementPreviewEntry>,
}

/// A copy of a range with the same bounds.
pub fn copy_range(range: &std::ops::Range<usize>) -> (copy: std::ops::Range<usize>)
    ensures
        copy.start == range.start,
        copy.end == range.end,
{
    range.start..range.end
}

} // verus!
