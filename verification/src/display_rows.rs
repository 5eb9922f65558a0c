//! Integer metadata of a laid-out text's painted rows: which document line
//! and characters each row shows, its overlays, and the line numbers the
//! gutter prints.
use vstd::prelude::*;
use crate::scrolling::{DisplayRow, DisplayRowFlags, ranges_overlap_u32, row_for_char_offset, row_for_offset, saturating_u32};

verus! {

/// What the layout says of one painted row: how many characters it holds,
/// counting a line break after it, and whether a line break ends it.
#[derive(Clone, Copy, Debug, PartialEq, Eq, Structural)]
pub struct GalleyRowShape {
    pub char_count_including_newline: usize,
    pub ends_with_newline: bool,
}

/// Integer metadata of one painted row.
#[derive(Debug, PartialEq, Eq)]
pub struct DisplayRowMeta {
    pub logical_line: u32,
    pub char_range: std::ops::Range<u32>,
    pub wrap_index: u16,
    pub has_selection: bool,
    pub has_search: bool,
}

/// `a + b`, saturating at the largest `u32`.
pub open spec fn sat_add_u32(a: u32, b: int) -> u32 {
    if a + b > u32::MAX { u32::MAX } else { (a + b) as u32 }
}

/// Document line shown by row `i`: the base line, plus one for every
/// earlier row that ends a line (saturating).
pub open spec fn row_logical_line(rows: Seq<GalleyRowShape>, base: u32, i: int) -> u32
    decreases i,
{
    if i <= 0 {
        base
    } else {
        let prev = row_logical_line(rows, base, i - 1);
        if rows[i - 1].ends_with_newline { sat_add_u32(prev, 1) } else { prev }
    }
}

/// First character of row `i`: the base offset plus the characters of the
/// earlier rows (each count taken as `u32`, the sum saturating).
pub open spec fn row_char_start(rows: Seq<GalleyRowShape>, base: u32, i: int) -> u32
    decreases i,
{
    if i <= 0 {
        base
    } else {
        sat_add_u32(row_char_start(rows, base, i - 1), (rows[i - 1].char_count_including_newline as u32) as int)
    }
}

/// Position of row `i` within its document line: 0 after a line break,
/// else one more than the row before (saturating).
pub open spec fn row_wrap_index(rows: Seq<GalleyRowShape>, i: int) -> u16
    decreases i,
{
    if i <= 0 {
        0
    } else if rows[i - 1].ends_with_newline {
        0
    } else {
        let prev = row_wrap_index(rows, i - 1);
        if prev + 1 > u16::MAX { u16::MAX } else { (prev + 1) as u16 }
    }
}

/// Whether a character range overlaps a row's `start..end`, both ends
/// saturated to `u32`.
pub open spec fn overlaps_row(range: std::ops::Range<usize>, start: u32, end: u32) -> bool {
    let s = if range.start <= u32::MAX { range.start as int } else { u32::MAX as int };
    let e = if range.end <= u32::MAX { range.end as int } else { u32::MAX as int };
    s < end && e > start
}

/// The metadata of row `i`.
pub open spec fn row_meta(
    rows: Seq<GalleyRowShape>,
    char_base: u32,
    line_base: u32,
    selection: Option<std::ops::Range<usize>>,
    search: Seq<std::ops::Range<usize>>,
    i: int,
) -> DisplayRowMeta {
    let start = row_char_start(rows, char_base, i);
    let end = row_char_start(rows, char_base, i + 1);
    DisplayRowMeta {
        logical_line: row_logical_line(rows, line_base, i),
        char_range: start..end,
        wrap_index: row_wrap_index(rows, i),
        has_selection: match selection {
            Some(r) => overlaps_row(r, start, end),
            None => false,
        },
        has_search: exists|k: int| 0 <= k < search.len() && overlaps_row(#[trigger] search[k], start, end),
    }
}

/// Whether any of `ranges` overlaps the row `start..end`.
pub fn any_range_overlaps(ranges: &[std::ops::Range<usize>], start: u32, end: u32) -> (found: bool)
    ensures
        found == exists|k: int| 0 <= k < ranges@.len() && overlaps_row(#[trigger] ranges@[k], start, end),
{
    let mut k: usize = 0;
    while k < ranges.len()
        invariant
            k <= ranges@.len(),
            forall|j: int| 0 <= j < k ==> !overlaps_row(#[trigger] ranges@[j], start, end),
        decreases ranges@.len() - k,
    {
        if ranges_overlap_u32(&ranges[k], &start, &end) {
            return true;
        }
        k = k + 1;
    }
    false
}

/// Row metadata for the rows of a laid-out slice that starts at character
/// `char_offset_base` and document line `logical_line_base`, with the rows
/// that overlap the selection and the search matches marked.
pub fn display_row_metadata(
    rows: &[GalleyRowShape],
    char_offset_base: usize,
    logical_line_base: usize,
    selection_range: Option<&std::ops::Range<usize>>,
    search_ranges: &[std::ops::Range<usize>],
) -> (meta: Vec<DisplayRowMeta>)
    ensures
        meta@.len() == rows@.len(),
        forall|i: int| 0 <= i < rows@.len() ==> #[trigger] meta@[i] == row_meta(rows@,
            if char_offset_base <= u32::MAX { char_offset_base as u32 } else { u32::MAX },
            if logical_line_base <= u32::MAX { logical_line_base as u32 } else { u32::MAX },
            match selection_range { Some(r) => Some(*r), None => None },
            search_ranges@, i),
{
    let char_base = saturating_u32(char_offset_base);
    let line_base = saturating_u32(logical_line_base);
    let ghost selection = match selection_range { Some(r) => Some(*r), None => None::<std::ops::Range<usize>> };
    let mut meta: Vec<DisplayRowMeta> = Vec::new();
    let mut current_logical = line_base;
    let mut current_char = char_base;
    let mut wrap_index: u16 = 0;
    let mut i: usize = 0;
    while i < rows.len()
        invariant
            i <= rows@.len(),
            meta@.len() == i,
            char_base == if char_offset_base <= u32::MAX { char_offset_base as u32 } else { u32::MAX },
            line_base == if logical_line_base <= u32::MAX { logical_line_base as u32 } else { u32::MAX },
            selection == (match selection_range { Some(r) => Some(*r), None => None::<std::ops::Range<usize>> }),
            current_logical == row_logical_line(rows@, line_base, i as int),
            current_char == row_char_start(rows@, char_base, i as int),
            wrap_index == row_wrap_index(rows@, i as int),
            forall|j: int| 0 <= j < i ==> #[trigger] meta@[j] == row_meta(rows@, char_base, line_base, selection, search_ranges@, j),
        decreases rows@.len() - i,
    {
        let row = rows[i];
        let row_start = current_char;
        current_char = current_char.saturating_add(row.char_count_including_newline as u32);
        let has_selection = match selection_range {
            Some(selection) => ranges_overlap_u32(selection, &row_start, &current_char),
            None => false,
        };
        let has_search = any_range_overlaps(search_ranges, row_start, current_char);
        meta.push(DisplayRowMeta {
            logical_line: current_logical,
            char_range: row_start..current_char,
            wrap_index,
            has_selection,
            has_search,
        });
        if row.ends_with_newline {
            current_logical = current_logical.saturating_add(1);
            wrap_index = 0;
        } else {
            wrap_index = wrap_index.saturating_add(1);
        }
        i = i + 1;
    }
    meta
}

/// Overlay flags of a row from its metadata; `long_line` comes from the
/// row's painted width.
pub fn row_flags(meta: &DisplayRowMeta, long_line: bool) -> (flags: DisplayRowFlags)
    ensures
        flags == (DisplayRowFlags { ascii: true, has_selection: meta.has_selection, has_search: meta.has_search, long_line }),
{
    DisplayRowFlags { ascii: true, has_selection: meta.has_selection, has_search: meta.has_search, long_line }
}

/// The integer part of a display snapshot: the document row of its first
/// row, and each row's document line and characters.
pub struct DisplayRowTable {
    pub display_row_base: u32,
    pub row_logical_lines: Vec<Option<u32>>,
    pub row_char_ranges: Vec<std::ops::Range<u32>>,
}

impl DisplayRowTable {
    /// The table for rows with the given metadata, whose first row is
    /// document row `logical_line_base` (saturated to `u32`).
    pub fn from_metadata(meta: &Vec<DisplayRowMeta>, logical_line_base: usize) -> (table: Self)
        ensures
            table.display_row_base == if logical_line_base <= u32::MAX { logical_line_base as u32 } else { u32::MAX },
            table.row_logical_lines@.len() == meta@.len(),
            table.row_char_ranges@.len() == meta@.len(),
            forall|i: int| 0 <= i < meta@.len() ==> #[trigger] table.row_logical_lines@[i] == Some(meta@[i].logical_line),
            forall|i: int| 0 <= i < meta@.len() ==> #[trigger] table.row_char_ranges@[i] == meta@[i].char_range,
    {
        let mut lines: Vec<Option<u32>> = Vec::new();
        let mut ranges: Vec<std::ops::Range<u32>> = Vec::new();
        let mut i: usize = 0;
        while i < meta.len()
            invariant
                i <= meta@.len(),
                lines@.len() == i,
                ranges@.len() == i,
                forall|j: int| 0 <= j < i ==> #[trigger] lines@[j] == Some(meta@[j].logical_line),
                forall|j: int| 0 <= j < i ==> #[trigger] ranges@[j] == meta@[j].char_range,
            decreases meta@.len() - i,
        {
            lines.push(Some(meta[i].logical_line));
            ranges.push(meta[i].char_range.start..meta[i].char_range.end);
            i = i + 1;
        }
        DisplayRowTable {
            display_row_base: saturating_u32(logical_line_base),
            row_logical_lines: lines,
            row_char_ranges: ranges,
        }
    }

    /// Number of rows, as `u32` (truncated).
    pub fn row_count(&self) -> (count: u32)
        ensures
            count == self.row_logical_lines@.len() as u32,
    {
        self.row_logical_lines.len() as u32
    }

    /// Document line shown by a row, if the row exists and has one.
    pub fn logical_line_for(&self, row: DisplayRow) -> (line: Option<u32>)
        ensures
            line == if (row.0 as int) < self.row_logical_lines@.len() { self.row_logical_lines@[row.0 as int] } else { None },
    {
        let index = row.0 as usize;
        if index < self.row_logical_lines.len() { self.row_logical_lines[index] } else { None }
    }

    /// Characters shown by a row, if the row exists.
    pub fn row_char_range(&self, row: DisplayRow) -> (range: Option<std::ops::Range<u32>>)
        ensures
            range == if (row.0 as int) < self.row_char_ranges@.len() { Some(self.row_char_ranges@[row.0 as int]) } else { None },
    {
        let index = row.0 as usize;
        if index < self.row_char_ranges.len() {
            let r = &self.row_char_ranges[index];
            Some(r.start..r.end)
        } else {
            None
        }
    }

    /// Row showing a character offset of the document, for rows in order.
    pub fn row_for_char_offset(&self, char_offset: u32) -> (row: Option<DisplayRow>)
        requires
            self.row_char_ranges@.len() <= u32::MAX,
        ensures
            match row_for_offset(self.row_char_ranges@, char_offset) {
                Some(r) => row == Some(DisplayRow(r)),
                None => row is None,
            },
    {
        row_for_char_offset(self.row_char_ranges.as_slice(), char_offset)
    }

    /// Document row of a snapshot row, when the row exists.
    pub fn document_row_for_snapshot_row(&self, row: DisplayRow) -> (document_row: Option<u32>)
        ensures
            document_row == if (row.0 as int) < self.row_char_ranges@.len() {
                Some(sat_add_u32(self.display_row_base, row.0 as int))
            } else {
                None
            },
    {
        if (row.0 as usize) < self.row_char_ranges.len() {
            Some(self.display_row_base.saturating_add(row.0))
        } else {
            None
        }
    }

    /// Snapshot row of a document row, when the snapshot holds it.
    pub fn row_for_document_row(&self, document_row: u32) -> (row: Option<DisplayRow>)
        ensures
            row == if document_row >= self.display_row_base
                && document_row - self.display_row_base < (self.row_logical_lines@.len() as u32) {
                Some(DisplayRow((document_row - self.display_row_base) as u32))
            } else {
                None
            },
    {
        if document_row < self.display_row_base {
            return None;
        }
        let local = document_row - self.display_row_base;
        if local < self.row_count() { Some(DisplayRow(local)) } else { None }
    }
}

/// Whether row `i` starts a document line: its line differs from the line
/// of the last earlier row that has one.
pub open spec fn last_line_before(lines: Seq<Option<u32>>, i: int) -> Option<u32>
    decreases i,
{
    if i <= 0 {
        None
    } else if lines[i - 1] is Some {
        lines[i - 1]
    } else {
        last_line_before(lines, i - 1)
    }
}

/// The 1-based number of a document line (saturating where `usize` is narrow).
pub open spec fn line_number(line: u32) -> usize {
    if line < usize::MAX { (line + 1) as usize } else { usize::MAX }
}

/// 1-based number of a document line.
fn one_based(line: u32) -> (number: usize)
    ensures
        number == line_number(line),
{
    let index = line as usize;
    if index < usize::MAX { index + 1 } else { usize::MAX }
}

/// The rows where a document line begins, each with its 1-based line number.
pub open spec fn gutter_rows(lines: Seq<Option<u32>>, n: int) -> Seq<(usize, usize)>
    decreases n,
{
    if n <= 0 {
        Seq::empty()
    } else {
        let before = gutter_rows(lines, n - 1);
        match lines[n - 1] {
            Some(line) => if last_line_before(lines, n - 1) != Some(line) {
                before.push(((n - 1) as usize, line_number(line)))
            } else {
                before
            },
            None => before,
        }
    }
}

/// Row index and 1-based line number of every row where a document line
/// begins, for the gutter.
pub fn snapshot_gutter_rows(table: &DisplayRowTable) -> (rows: Vec<(usize, usize)>)
    ensures
        rows@ == gutter_rows(table.row_logical_lines@, table.row_logical_lines@.len() as int),
{
    let lines = &table.row_logical_lines;
    let mut rows: Vec<(usize, usize)> = Vec::new();
    let mut prev_logical: Option<u32> = None;
    let mut i: usize = 0;
    while i < lines.len()
        invariant
            i <= lines@.len(),
            lines == &table.row_logical_lines,
            prev_logical == last_line_before(lines@, i as int),
            rows@ == gutter_rows(lines@, i as int),
        decreases lines@.len() - i,
    {
        if let Some(logical) = lines[i] {
            let is_leading = match prev_logical {
                Some(p) => p != logical,
                None => true,
            };
            prev_logical = Some(logical);
            if is_leading {
                rows.push((i, one_based(logical)));
            }
        }
        i = i + 1;
    }
    rows
}

/// The largest line number the gutter may print: the last row's line (as
/// a 1-based number) or the buffer's line count, whichever is larger.
pub fn max_gutter_line_number(previous_snapshot: Option<&DisplayRowTable>, fallback_line_count: usize) -> (max_number: usize)
    ensures
        max_number >= fallback_line_count,
        max_number == match previous_snapshot {
            Some(t) => {
                let count = #[verifier::truncate] (t.row_logical_lines@.len() as u32);
                let last = if count == 0 { None } else if (count - 1) < t.row_logical_lines@.len() { t.row_logical_lines@[count - 1] } else { None };
                match last {
                    Some(n) => if line_number(n) > fallback_line_count { line_number(n) } else { fallback_line_count },
                    None => fallback_line_count,
                }
            },
            None => fallback_line_count,
        },
{
    let candidate = match previous_snapshot {
        Some(snap) => {
            let count = snap.row_count();
            if count == 0 {
                None
            } else {
                match snap.logical_line_for(DisplayRow(count - 1)) {
                    Some(n) => Some(one_based(n)),
                    None => None,
                }
            }
        },
        None => None,
    };
    let number = match candidate {
        Some(n) => n,
        None => fallback_line_count,
    };
    if number > fallback_line_count { number } else { fallback_line_count }
}

} // verus!

verus! {

/// Gutter rows to print around the viewport: two rows of overscan above the
/// first visible row and below the last one, within `row_count`. The first
/// and last visible rows come from the viewport's top and bottom divided by
/// the row height (rounded down and up).
pub fn gutter_row_range(first_visible: usize, last_visible: usize, row_count: usize) -> (rows: std::ops::Range<usize>)
    requires
        last_visible + 2 <= usize::MAX,
    ensures
        rows.start == if first_visible >= 2 { first_visible - 2 } else { 0 },
        rows.end == if last_visible + 2 < row_count { last_visible + 2 } else { row_count as int },
{
    let overscan_rows: usize = 2;
    let end = last_visible + overscan_rows;
    first_visible.saturating_sub(overscan_rows)..(if end < row_count { end } else { row_count })
}

} // verus!

verus! {

/// Character ranges of the rows built from a layout, in row order.
pub open spec fn row_char_ranges_of(rows: Seq<GalleyRowShape>, char_base: u32) -> Seq<std::ops::Range<u32>> {
    Seq::new(rows.len(), |i: int| std::ops::Range { start: row_char_start(rows, char_base, i), end: row_char_start(rows, char_base, i + 1) })
}

/// The rows built from a layout are laid out in order: each starts where the
/// one before it ends and none ends before it starts.
pub proof fn row_metadata_in_order(rows: Seq<GalleyRowShape>, char_base: u32)
    ensures
        crate::scrolling::rows_in_order(row_char_ranges_of(rows, char_base)),
{
    let ranges = row_char_ranges_of(rows, char_base);
    assert forall|i: int| 0 <= i < ranges.len() implies (#[trigger] ranges[i]).start <= ranges[i].end by {
        assert(row_char_start(rows, char_base, i + 1)
            == sat_add_u32(row_char_start(rows, char_base, i), (rows[i].char_count_including_newline as u32) as int));
    }
}

} // verus!
