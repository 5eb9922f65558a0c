//! Character arithmetic behind painting: where the caret and the IME
//! composition fall in a painted slice, which replacement previews it shows
//! and the label drawn for each.
use vstd::prelude::*;
use crate::display_text::{DisplayTextMap, lookup_or_last};
use crate::highlights::SearchReplacementPreview;
use crate::text::{chars_of, push_str};
use crate::types::CharCursor;

verus! {

/// The active part of an IME composition, clipped to the composed text's
/// characters; `None` when nothing of it is left.
pub fn active_ime_range(range: Option<std::ops::Range<usize>>, text: &str) -> (active: Option<std::ops::Range<usize>>)
    ensures
        match range {
            None => active is None,
            Some(r) => {
                let start = if r.start < text@.len() { r.start as int } else { text@.len() as int };
                let end = if r.end < text@.len() { r.end as int } else { text@.len() as int };
                if start < end {
                    active matches Some(a) && a.start == start && a.end == end
                } else {
                    active is None
                }
            },
        },
{
    let char_len = chars_of(text).len();
    let range = match range {
        Some(r) => r,
        None => {
            return None;
        },
    };
    let start = if range.start < char_len { range.start } else { char_len };
    let end = if range.end < char_len { range.end } else { char_len };
    if start < end { Some(start..end) } else { None }
}

/// Painted caret for a document caret, in a slice starting at
/// `char_offset_base`, through the slice's display map when there is one.
pub fn local_cursor(cursor: CharCursor, char_offset_base: usize, display_map: Option<&DisplayTextMap>) -> (local: CharCursor)
    ensures
        local.prefer_next_row == cursor.prefer_next_row,
        local.index == match display_map {
            Some(m) => lookup_or_last(m@.doc_to_display, cursor.index.saturating_sub(char_offset_base) as int) as int,
            None => cursor.index.saturating_sub(char_offset_base) as int,
        },
{
    let doc_local = cursor.index.saturating_sub(char_offset_base);
    CharCursor {
        index: match display_map {
            Some(map) => map.doc_to_display_cursor(doc_local),
            None => doc_local,
        },
        prefer_next_row: cursor.prefer_next_row,
    }
}

/// Like [`local_cursor`], kept within the slice's `slice_chars` characters
/// and within the displayed text.
pub fn local_cursor_for_slice(
    cursor: CharCursor,
    char_offset_base: usize,
    slice_chars: usize,
    display_map: Option<&DisplayTextMap>,
) -> (local: CharCursor)
    ensures
        local.prefer_next_row == cursor.prefer_next_row,
        ({
            let shifted = cursor.index.saturating_sub(char_offset_base);
            let doc_local = if shifted < slice_chars { shifted as int } else { slice_chars as int };
            local.index == match display_map {
                Some(m) => {
                    let shown = lookup_or_last(m@.doc_to_display, doc_local) as int;
                    let len = if m@.display_to_doc.len() > 0 { m@.display_to_doc.len() - 1 } else { 0 };
                    if shown < len { shown } else { len }
                },
                None => doc_local,
            }
        }),
{
    let shifted = cursor.index.saturating_sub(char_offset_base);
    let doc_local = if shifted < slice_chars { shifted } else { slice_chars };
    CharCursor {
        index: match display_map {
            Some(map) => {
                let shown = map.doc_to_display_cursor(doc_local);
                let len = map.display_len();
                if shown < len { shown } else { len }
            },
            None => doc_local,
        },
        prefer_next_row: cursor.prefer_next_row,
    }
}

/// Number of leading entries ending at or before `pos`.
pub open spec fn entries_ending_by(ends: Seq<usize>, pos: usize, k: int) -> int
    decreases ends.len() - k,
{
    if k < 0 || k >= ends.len() || ends[k] > pos {
        if k < 0 { 0 } else { k }
    } else {
        entries_ending_by(ends, pos, k + 1)
    }
}

/// Number of leading entries starting before `pos`.
pub open spec fn entries_starting_before(starts: Seq<usize>, pos: usize, k: int) -> int
    decreases starts.len() - k,
{
    if k < 0 || k >= starts.len() || starts[k] >= pos {
        if k < 0 { 0 } else { k }
    } else {
        entries_starting_before(starts, pos, k + 1)
    }
}

/// End of each preview entry's range.
pub open spec fn entry_ends(preview: SearchReplacementPreview) -> Seq<usize> {
    preview.entries@.map_values(|e: crate::highlights::SearchReplacementPreviewEntry| e.range.end)
}

/// Start of each preview entry's range.
pub open spec fn entry_starts(preview: SearchReplacementPreview) -> Seq<usize> {
    preview.entries@.map_values(|e: crate::highlights::SearchReplacementPreviewEntry| e.range.start)
}

/// Indices of the preview entries that can touch `slice_range`, for entries
/// in document order: from the first entry ending after the slice's start to
/// the last entry starting before its end.
pub fn visible_preview_entries(preview: &SearchReplacementPreview, slice_range: &std::ops::Range<usize>) -> (indices: std::ops::Range<usize>)
    ensures
        indices.start == entries_ending_by(entry_ends(*preview), slice_range.start, 0),
        indices.end == entries_starting_before(entry_starts(*preview), slice_range.end, 0),
{
    let n = preview.entries.len();
    let mut start_index: usize = 0;
    while start_index < n && preview.entries[start_index].range.end <= slice_range.start
        invariant
            n == preview.entries@.len(),
            start_index <= n,
            entries_ending_by(entry_ends(*preview), slice_range.start, start_index as int)
                == entries_ending_by(entry_ends(*preview), slice_range.start, 0),
        decreases n - start_index,
    {
        start_index = start_index + 1;
    }
    let mut end_index: usize = 0;
    while end_index < n && preview.entries[end_index].range.start < slice_range.end
        invariant
            n == preview.entries@.len(),
            end_index <= n,
            entries_starting_before(entry_starts(*preview), slice_range.end, end_index as int)
                == entries_starting_before(entry_starts(*preview), slice_range.end, 0),
        decreases n - end_index,
    {
        end_index = end_index + 1;
    }
    start_index..end_index
}

/// Characters shown of a replacement before it is cut short.
pub const PREVIEW_MAX_CHARS: usize = 80;

/// `s` with every line break character shown as a space.
pub open spec fn flattened(s: Seq<char>) -> Seq<char> {
    s.map_values(|c: char| if c == '\r' || c == '\n' { ' ' } else { c })
}

/// The label drawn over a pending replacement: its text on one line, cut
/// to the first 80 characters and marked with "..." when longer.
pub fn preview_label(replacement: &str) -> (label: String)
    ensures
        label@ == if replacement@.len() > PREVIEW_MAX_CHARS {
            flattened(replacement@).take(PREVIEW_MAX_CHARS as int) + "..."@
        } else {
            flattened(replacement@)
        },
{
    let chars = chars_of(replacement);
    let mut label = String::new();
    let mut i: usize = 0;
    let limit = if chars.len() < PREVIEW_MAX_CHARS { chars.len() } else { PREVIEW_MAX_CHARS };
    while i < limit
        invariant
            chars@ == replacement@,
            limit <= chars@.len(),
            i <= limit,
            label@ == flattened(replacement@).take(i as int),
        decreases limit - i,
    {
        let c = chars[i];
        label.push(if c == '\r' || c == '\n' { ' ' } else { c });
        i = i + 1;
        assert(label@ =~= flattened(replacement@).take(i as int));
    }
    if chars.len() > PREVIEW_MAX_CHARS {
        push_str(&mut label, "...");
    } else {
        assert(flattened(replacement@).take(i as int) =~= flattened(replacement@));
    }
    label
}

/// Rows kept above and below the visible rows when repainting a window.
pub const VISIBLE_ROW_OVERSCAN: usize = 2;

/// Laid-out rows to repaint: from `VISIBLE_ROW_OVERSCAN` rows above the first
/// visible row (never above row 0) to as many below the last visible row
/// (never past `row_count`).
pub fn visible_row_window(first_visible: usize, last_visible: usize, row_count: usize) -> (rows: std::ops::Range<usize>)
    requires
        last_visible + 1 + VISIBLE_ROW_OVERSCAN <= usize::MAX,
    ensures
        rows.start == if first_visible >= VISIBLE_ROW_OVERSCAN { first_visible - VISIBLE_ROW_OVERSCAN } else { 0 },
        rows.end == if last_visible + 1 + VISIBLE_ROW_OVERSCAN < row_count {
            last_visible + 1 + VISIBLE_ROW_OVERSCAN
        } else {
            row_count as int
        },
{
    let start = first_visible.saturating_sub(VISIBLE_ROW_OVERSCAN);
    let reach = last_visible + 1 + VISIBLE_ROW_OVERSCAN;
    let end = if reach < row_count { reach } else { row_count };
    start..end
}

} // verus!
