//! Integer parts of the scrolling pipeline: display rows, row overlays,
//! scroll sources and scrollbar policies.
use vstd::prelude::*;
use crate::text::decimal;

verus! {

/// A painted row index after wrapping.
#[derive(Clone, Copy, Debug, PartialEq, Eq, PartialOrd, Ord, Hash, Structural)]
pub struct DisplayRow(pub u32);

/// Overlay flags of a painted row.
#[derive(Clone, Copy, Debug, PartialEq, Eq, Structural)]
pub struct DisplayRowFlags {
    pub ascii: bool,
    pub has_selection: bool,
    pub has_search: bool,
    pub long_line: bool,
}

/// A scroll axis.
#[derive(Clone, Copy, Debug, PartialEq, Eq, Structural)]
pub enum Axis {
    X,
    Y,
}

/// When a scrollbar is drawn.
#[derive(Clone, Copy, Debug, PartialEq, Eq, Structural)]
pub enum ScrollbarPolicy {
    AlwaysVisible,
    VisibleWhenNeeded,
    Hidden,
}

impl Default for ScrollbarPolicy {
    fn default() -> (policy: Self)
        ensures
            policy == ScrollbarPolicy::VisibleWhenNeeded,
    {
        ScrollbarPolicy::VisibleWhenNeeded
    }
}

/// Axis of a scrollbar.
#[derive(Clone, Copy, Debug, PartialEq, Eq, Structural)]
pub enum ScrollbarAxis {
    X,
    Y,
}

impl ScrollbarAxis {
    /// Index of the axis in per-axis arrays: 0 for X, 1 for Y.
    pub fn index(self) -> (i: usize)
        ensures
            i == match self {
                ScrollbarAxis::X => 0usize,
                ScrollbarAxis::Y => 1usize,
            },
    {
        match self {
            ScrollbarAxis::X => 0,
            ScrollbarAxis::Y => 1,
        }
    }
}

/// Input sources allowed to drive a scroll area.
#[derive(Clone, Copy, Debug, PartialEq, Eq, Structural)]
pub struct ScrollSource {
    pub scroll_bar: bool,
    pub mouse_wheel: bool,
    pub drag: bool,
    pub programmatic: bool,
}

impl ScrollSource {
    /// Every source.
    pub fn all() -> (source: Self)
        ensures
            source == (ScrollSource { scroll_bar: true, mouse_wheel: true, drag: true, programmatic: true }),
    {
        ScrollSource { scroll_bar: true, mouse_wheel: true, drag: true, programmatic: true }
    }

    /// No source.
    pub fn none() -> (source: Self)
        ensures
            source == (ScrollSource { scroll_bar: false, mouse_wheel: false, drag: false, programmatic: false }),
    {
        ScrollSource { scroll_bar: false, mouse_wheel: false, drag: false, programmatic: false }
    }

    /// The editor's sources: all but drag-to-scroll, since drags select text.
    pub fn editor() -> (source: Self)
        ensures
            source == (ScrollSource { scroll_bar: true, mouse_wheel: true, drag: false, programmatic: true }),
    {
        ScrollSource { scroll_bar: true, mouse_wheel: true, drag: false, programmatic: true }
    }
}

impl Default for ScrollSource {
    fn default() -> (source: Self)
        ensures
            source == (ScrollSource { scroll_bar: true, mouse_wheel: true, drag: true, programmatic: true }),
    {
        ScrollSource::all()
    }
}

/// Ways the scroll measurements can be unusable.
#[derive(Clone, Copy, Debug, PartialEq, Eq, Structural)]
pub enum ScrollInvariantError {
    InvalidRowHeight,
    InvalidViewportDimensions,
    InvalidContentExtent,
}

impl ScrollInvariantError {
    /// The error's description.
    pub fn message(&self) -> (text: &'static str)
        ensures
            text@ == match self {
                ScrollInvariantError::InvalidRowHeight => "invalid editor row height"@,
                ScrollInvariantError::InvalidViewportDimensions => "invalid editor viewport dimensions"@,
                ScrollInvariantError::InvalidContentExtent => "invalid editor content extent"@,
            },
    {
        match self {
            ScrollInvariantError::InvalidRowHeight => "invalid editor row height",
            ScrollInvariantError::InvalidViewportDimensions => "invalid editor viewport dimensions",
            ScrollInvariantError::InvalidContentExtent => "invalid editor content extent",
        }
    }
}

/// A count as `u32`, saturating at the largest `u32`.
pub fn saturating_u32(value: usize) -> (v: u32)
    ensures
        v == if value <= u32::MAX { value as u32 } else { u32::MAX },
{
    if value <= 4294967295usize { value as u32 } else { 4294967295u32 }
}

/// Whether a character range overlaps the row `row_start..row_end`.
pub fn ranges_overlap_u32(range: &std::ops::Range<usize>, row_start: &u32, row_end: &u32) -> (overlap: bool)
    ensures
        overlap == ({
            let s = if range.start <= u32::MAX { range.start as int } else { u32::MAX as int };
            let e = if range.end <= u32::MAX { range.end as int } else { u32::MAX as int };
            s < *row_end && e > *row_start
        }),
{
    let start = saturating_u32(range.start);
    let end = saturating_u32(range.end);
    start < *row_end && end > *row_start
}

/// Row of a snapshot holding `char_offset`, given each row's character range
/// in order: the first row ending after it, or the last row when it is at the
/// very end; `None` outside the snapshot's characters.
pub open spec fn row_for_offset(rows: Seq<std::ops::Range<u32>>, char_offset: u32) -> Option<u32> {
    if rows.len() == 0 || char_offset < rows[0].start || char_offset > rows[rows.len() - 1].end {
        None
    } else {
        let position = first_row_ending_after(rows, char_offset, 0);
        Some((if position < rows.len() - 1 { position } else { rows.len() - 1 }) as u32)
    }
}

/// First row from `k` on whose end lies after `char_offset`, or the row count.
pub open spec fn first_row_ending_after(rows: Seq<std::ops::Range<u32>>, char_offset: u32, k: int) -> int
    decreases rows.len() - k,
{
    if k < 0 || k >= rows.len() {
        rows.len() as int
    } else if rows[k].end > char_offset {
        k
    } else {
        first_row_ending_after(rows, char_offset, k + 1)
    }
}

/// Row holding a character offset, for rows laid out in order.
pub fn row_for_char_offset(row_char_ranges: &[std::ops::Range<u32>], char_offset: u32) -> (row: Option<DisplayRow>)
    requires
        row_char_ranges@.len() <= u32::MAX,
    ensures
        match row_for_offset(row_char_ranges@, char_offset) {
            Some(r) => row == Some(DisplayRow(r)),
            None => row is None,
        },
{
    let n = row_char_ranges.len();
    if n == 0 {
        return None;
    }
    if char_offset < row_char_ranges[0].start || char_offset > row_char_ranges[n - 1].end {
        return None;
    }
    let mut position: usize = 0;
    while position < n && row_char_ranges[position].end <= char_offset
        invariant
            position <= n == row_char_ranges@.len(),
            first_row_ending_after(row_char_ranges@, char_offset, position as int)
                == first_row_ending_after(row_char_ranges@, char_offset, 0),
        decreases n - position,
    {
        position = position + 1;
    }
    let clamped = if position < n - 1 { position } else { n - 1 };
    Some(DisplayRow(clamped as u32))
}

/// Rows to paint for a viewport: from `overscan_rows` above the row under
/// the viewport's top (never above row 0) to `overscan_rows` below the last
/// visible row (never past `total_rows`). `top_row_floor` and `top_row_ceil`
/// are the fractional top row rounded down and up; `visible_rows` counts the
/// rows the viewport's height spans, plus one.
pub fn viewport_row_range(
    top_row_floor: i32,
    top_row_ceil: u32,
    visible_rows: u32,
    overscan_rows: u32,
    total_rows: u32,
) -> (rows: std::ops::Range<u32>)
    requires
        overscan_rows <= i32::MAX,
        top_row_floor - overscan_rows >= i32::MIN,
        top_row_ceil + visible_rows + overscan_rows <= u32::MAX,
    ensures
        rows.start == if top_row_floor - overscan_rows > 0 { top_row_floor - overscan_rows } else { 0 },
        rows.end == if top_row_ceil + visible_rows + overscan_rows < total_rows {
            top_row_ceil + visible_rows + overscan_rows
        } else {
            total_rows as int
        },
{
    let shifted: i32 = top_row_floor - overscan_rows as i32;
    let start: u32 = if shifted > 0 { shifted as u32 } else { 0 };
    let reach: u32 = top_row_ceil + visible_rows + overscan_rows;
    let end: u32 = if reach < total_rows { reach } else { total_rows };
    start..end
}

/// Number of decimal digits of `max_number` (at least one).
pub fn gutter_digit_count(max_number: usize) -> (digits: usize)
    ensures
        digits == decimal((if max_number > 1 { max_number } else { 1 }) as nat).len(),
{
    let mut n = if max_number > 1 { max_number } else { 1 };
    let mut digits: usize = 1;
    let ghost target = decimal(n as nat).len();
    proof { lemma_decimal_len_bound(n as nat); }
    while n >= 10
        invariant
            1 <= digits,
            n >= 1,
            target <= usize::MAX,
            digits + decimal(n as nat).len() - 1 == target,
        decreases n,
    {
        assert(decimal(n as nat).len() == decimal((n / 10) as nat).len() + 1);
        proof { lemma_decimal_len_bound((n / 10) as nat); }
        n = n / 10;
        digits = digits + 1;
    }
    digits
}

proof fn lemma_decimal_len_bound(n: nat)
    requires
        n >= 1,
    ensures
        1 <= decimal(n).len() <= n,
    decreases n,
{
    if n >= 10 {
        lemma_decimal_len_bound(n / 10);
    }
}

} // verus!

verus! {

/// Rows laid out in order: each row's characters end where the next row's begin.
pub open spec fn rows_in_order(rows: Seq<std::ops::Range<u32>>) -> bool {
    &&& forall|i: int| 0 <= i < rows.len() ==> (#[trigger] rows[i]).start <= rows[i].end
    &&& forall|i: int| 0 <= i < rows.len() - 1 ==> (#[trigger] rows[i]).end == rows[i + 1].start
}

proof fn lemma_first_row_ending_after(rows: Seq<std::ops::Range<u32>>, char_offset: u32, k: int)
    requires
        0 <= k <= rows.len(),
    ensures
        k <= first_row_ending_after(rows, char_offset, k) <= rows.len(),
        first_row_ending_after(rows, char_offset, k) < rows.len()
            ==> rows[first_row_ending_after(rows, char_offset, k)].end > char_offset,
        forall|j: int| k <= j < first_row_ending_after(rows, char_offset, k) ==> (#[trigger] rows[j]).end <= char_offset,
    decreases rows.len() - k,
{
    if k < rows.len() && rows[k].end <= char_offset {
        lemma_first_row_ending_after(rows, char_offset, k + 1);
    }
}

/// For rows laid out in order, the row found for a character offset holds
/// it: the offset lies between the row's first character and its end. No
/// row is found only for offsets outside all rows.
pub proof fn found_row_holds_offset(rows: Seq<std::ops::Range<u32>>, char_offset: u32)
    requires
        rows_in_order(rows),
        rows.len() <= u32::MAX,
    ensures
        match row_for_offset(rows, char_offset) {
            Some(r) => r < rows.len() && rows[r as int].start <= char_offset <= rows[r as int].end,
            None => rows.len() == 0 || char_offset < rows[0].start || char_offset > rows[rows.len() - 1].end,
        },
{
    if rows.len() > 0 && char_offset >= rows[0].start && char_offset <= rows[rows.len() - 1].end {
        lemma_first_row_ending_after(rows, char_offset, 0);
        let p = first_row_ending_after(rows, char_offset, 0);
        if p < rows.len() {
            if p > 0 {
                assert(rows[p - 1].end <= char_offset);
                assert(rows[p - 1].end == rows[p].start);
            }
        } else {
            assert(rows[rows.len() - 1].end <= char_offset);
        }
    }
}

} // verus!
