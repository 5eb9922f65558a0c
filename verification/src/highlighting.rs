//! Which highlight paints where: selection and search overlays, clipped to
//! the laid-out slice of a document.
use vstd::prelude::*;
use crate::highlights::{SearchHighlightState, copy_range};

verus! {

/// Kinds of painted highlight; the selection wins over search matches, and
/// the active match over passive ones.
#[derive(Clone, Copy, Debug, PartialEq, Eq, Structural)]
pub enum HighlightKind {
    Selection,
    SearchActive,
    SearchPassive,
}

/// A highlighted span of characters.
pub struct TextHighlightRange {
    pub range: std::ops::Range<usize>,
    pub kind: HighlightKind,
}

/// Search matches that fit in `text_char_len` characters and are not empty,
/// tagged active or passive, in order; `n` is how many ranges are considered.
pub open spec fn search_highlights_upto(ranges: Seq<std::ops::Range<usize>>, active: Option<usize>, text_char_len: int, n: int) -> Seq<(std::ops::Range<usize>, HighlightKind)>
    decreases n,
{
    if n <= 0 {
        Seq::empty()
    } else {
        let rest = search_highlights_upto(ranges, active, text_char_len, n - 1);
        let r = ranges[n - 1];
        if r.start >= r.end || r.end > text_char_len {
            rest
        } else {
            rest.push((r, if active == Some((n - 1) as usize) { HighlightKind::SearchActive } else { HighlightKind::SearchPassive }))
        }
    }
}

/// The highlights of a text: the selection first (when it ends within the
/// text), then the drawable search matches.
pub open spec fn merged_highlights(search: SearchHighlightState, selection: Option<std::ops::Range<usize>>, text_char_len: int) -> Seq<(std::ops::Range<usize>, HighlightKind)> {
    let head = match selection {
        Some(r) => if r.end <= text_char_len { seq![(r, HighlightKind::Selection)] } else { Seq::empty() },
        None => Seq::empty(),
    };
    head + search_highlights_upto(search.ranges@, search.active_range_index, text_char_len, search.ranges@.len() as int)
}

/// The highlight ranges as pairs.
pub open spec fn highlight_pairs(h: Seq<TextHighlightRange>) -> Seq<(std::ops::Range<usize>, HighlightKind)> {
    h.map_values(|t: TextHighlightRange| (t.range, t.kind))
}

/// Collects the selection and search highlights that can be painted on a
/// text of `text_char_len` characters.
pub fn merged_highlight_ranges(
    search_highlights: &SearchHighlightState,
    selection_range: Option<std::ops::Range<usize>>,
    text_char_len: usize,
) -> (highlights: Vec<TextHighlightRange>)
    ensures
        highlight_pairs(highlights@) == merged_highlights(*search_highlights, selection_range, text_char_len as int),
{
    let mut highlights: Vec<TextHighlightRange> = Vec::new();
    let ghost head: Seq<(std::ops::Range<usize>, HighlightKind)> = Seq::empty();
    match selection_range {
        Some(range) => {
            if range.end <= text_char_len {
                proof { head = seq![(range, HighlightKind::Selection)]; }
                highlights.push(TextHighlightRange { range, kind: HighlightKind::Selection });
            }
        },
        None => {},
    }
    assert(highlight_pairs(highlights@) =~= head);
    let mut index: usize = 0;
    while index < search_highlights.ranges.len()
        invariant
            index <= search_highlights.ranges@.len(),
            highlight_pairs(highlights@) == head + search_highlights_upto(search_highlights.ranges@,
                search_highlights.active_range_index, text_char_len as int, index as int),
            head == (match selection_range {
                Some(r) => if r.end <= text_char_len { seq![(r, HighlightKind::Selection)] } else { Seq::empty() },
                None => Seq::empty(),
            }),
        decreases search_highlights.ranges.len() - index,
    {
        let range = &search_highlights.ranges[index];
        let ghost prev_pairs = highlight_pairs(highlights@);
        if !(range.start >= range.end || range.end > text_char_len) {
            let kind = if search_highlights.active_range_index == Some(index) {
                HighlightKind::SearchActive
            } else {
                HighlightKind::SearchPassive
            };
            let copied = copy_range(range);
            assert(copied == search_highlights.ranges@[index as int]);
            highlights.push(TextHighlightRange { range: copied, kind });
            assert(highlight_pairs(highlights@) =~= prev_pairs.push((copied, kind)));
        } else {
            assert(highlight_pairs(highlights@) =~= prev_pairs);
        }
        index = index + 1;
        assert(highlight_pairs(highlights@) =~= head + search_highlights_upto(search_highlights.ranges@,
            search_highlights.active_range_index, text_char_len as int, index as int));
    }
    highlights
}

proof fn lemma_search_highlight_sources(ranges: Seq<std::ops::Range<usize>>, active: Option<usize>, text_char_len: int, n: int) -> (idx: Seq<int>)
    requires
        0 <= n <= ranges.len(),
    ensures
        idx.len() == search_highlights_upto(ranges, active, text_char_len, n).len(),
        forall|k: int| 0 <= k < idx.len() ==> 0 <= #[trigger] idx[k] < n
            && ranges[idx[k]].start < ranges[idx[k]].end && ranges[idx[k]].end <= text_char_len
            && search_highlights_upto(ranges, active, text_char_len, n)[k] == (ranges[idx[k]], (if active == Some(idx[k] as usize) { HighlightKind::SearchActive } else { HighlightKind::SearchPassive })),
        forall|k1: int, k2: int| 0 <= k1 < k2 < idx.len() ==> #[trigger] idx[k1] < #[trigger] idx[k2],
        forall|i: int| 0 <= i < n && (#[trigger] ranges[i]).start < ranges[i].end && ranges[i].end <= text_char_len
            ==> exists|k: int| 0 <= k < idx.len() && #[trigger] idx[k] == i,
    decreases n,
{
    if n == 0 {
        Seq::empty()
    } else {
        let prev = lemma_search_highlight_sources(ranges, active, text_char_len, n - 1);
        let r = ranges[n - 1];
        if r.start >= r.end || r.end > text_char_len {
            assert forall|i: int| 0 <= i < n && (#[trigger] ranges[i]).start < ranges[i].end && ranges[i].end <= text_char_len
                implies exists|k: int| 0 <= k < prev.len() && #[trigger] prev[k] == i by {
                assert(i < n - 1);
            }
            prev
        } else {
            let idx = prev.push(n - 1);
            assert forall|k: int| 0 <= k < idx.len() implies 0 <= #[trigger] idx[k] < n
                && ranges[idx[k]].start < ranges[idx[k]].end && ranges[idx[k]].end <= text_char_len
                && search_highlights_upto(ranges, active, text_char_len, n)[k] == (ranges[idx[k]], (if active == Some(idx[k] as usize) { HighlightKind::SearchActive } else { HighlightKind::SearchPassive })) by {
                if k < prev.len() {
                    assert(idx[k] == prev[k]);
                }
            }
            assert forall|k1: int, k2: int| 0 <= k1 < k2 < idx.len() implies #[trigger] idx[k1] < #[trigger] idx[k2] by {
                assert(idx[k1] == prev[k1]);
                if k2 < prev.len() {
                    assert(idx[k2] == prev[k2]);
                }
            }
            assert forall|i: int| 0 <= i < n && (#[trigger] ranges[i]).start < ranges[i].end && ranges[i].end <= text_char_len
                implies exists|k: int| 0 <= k < idx.len() && #[trigger] idx[k] == i by {
                if i < n - 1 {
                    let k = choose|k: int| 0 <= k < prev.len() && #[trigger] prev[k] == i;
                    assert(idx[k] == prev[k]);
                } else {
                    assert(idx[prev.len() as int] == n - 1);
                }
            }
            idx
        }
    }
}

/// The merged highlights are the selection (when it ends within the text),
/// followed by one highlight for each search match that is non-empty and ends
/// within the text, in the order of the matches: the highlight built from the
/// match at index `i` covers exactly that match and is the active kind exactly
/// when `active_range_index` is `Some(i)`, the passive kind otherwise.
pub proof fn merged_highlights_follow_selection_and_matches(
    search: SearchHighlightState,
    selection: Option<std::ops::Range<usize>>,
    text_char_len: int,
)
    ensures
        ({
            let h = merged_highlights(search, selection, text_char_len);
            let ranges = search.ranges@;
            let head: int = match selection {
                Some(r) => if r.end <= text_char_len { 1 } else { 0 },
                None => 0,
            };
            &&& head <= h.len()
            &&& head == 1 ==> h[0] == (selection->0, HighlightKind::Selection)
            &&& exists|idx: Seq<int>| {
                &&& idx.len() == h.len() - head
                &&& forall|k: int| 0 <= k < idx.len() ==> 0 <= #[trigger] idx[k] < ranges.len()
                    && ranges[idx[k]].start < ranges[idx[k]].end && ranges[idx[k]].end <= text_char_len
                    && h[head + k] == (ranges[idx[k]], (if search.active_range_index == Some(idx[k] as usize) { HighlightKind::SearchActive } else { HighlightKind::SearchPassive }))
                &&& forall|k1: int, k2: int| 0 <= k1 < k2 < idx.len() ==> #[trigger] idx[k1] < #[trigger] idx[k2]
                &&& forall|i: int| 0 <= i < ranges.len() && (#[trigger] ranges[i]).start < ranges[i].end && ranges[i].end <= text_char_len
                    ==> exists|k: int| 0 <= k < idx.len() && #[trigger] idx[k] == i
            }
        }),
{
    let h = merged_highlights(search, selection, text_char_len);
    let ranges = search.ranges@;
    let head_seq: Seq<(std::ops::Range<usize>, HighlightKind)> = match selection {
        Some(r) => if r.end <= text_char_len { seq![(r, HighlightKind::Selection)] } else { Seq::empty() },
        None => Seq::empty(),
    };
    let head: int = match selection {
        Some(r) => if r.end <= text_char_len { 1 } else { 0 },
        None => 0,
    };
    let tail = search_highlights_upto(ranges, search.active_range_index, text_char_len, ranges.len() as int);
    assert(h == head_seq + tail);
    assert(head_seq.len() == head);
    let idx = lemma_search_highlight_sources(ranges, search.active_range_index, text_char_len, ranges.len() as int);
    assert forall|k: int| 0 <= k < idx.len() implies 0 <= #[trigger] idx[k] < ranges.len()
        && ranges[idx[k]].start < ranges[idx[k]].end && ranges[idx[k]].end <= text_char_len
        && h[head + k] == (ranges[idx[k]], (if search.active_range_index == Some(idx[k] as usize) { HighlightKind::SearchActive } else { HighlightKind::SearchPassive })) by {
        assert(h[head + k] == tail[k]);
    }
}

/// The strongest kind among the first `n` highlights covering `segment_start`:
/// the first selection found wins outright; otherwise the last active match,
/// else the first passive one.
pub open spec fn kind_at(h: Seq<(std::ops::Range<usize>, HighlightKind)>, segment_start: int, n: int) -> Option<HighlightKind>
    decreases n,
{
    if n <= 0 {
        None
    } else {
        let best = kind_at(h, segment_start, n - 1);
        let (r, kind) = h[n - 1];
        if best == Some(HighlightKind::Selection) {
            best
        } else if r.start <= segment_start && segment_start < r.end {
            match kind {
                HighlightKind::Selection => Some(HighlightKind::Selection),
                HighlightKind::SearchActive => Some(HighlightKind::SearchActive),
                HighlightKind::SearchPassive => if best is None { Some(HighlightKind::SearchPassive) } else { best },
            }
        } else {
            best
        }
    }
}

/// Which highlight paints the segment starting at `segment_start`.
pub fn highlight_kind_for_segment(highlights: &[TextHighlightRange], segment_start: usize) -> (kind: Option<HighlightKind>)
    ensures
        kind == kind_at(highlight_pairs(highlights@), segment_start as int, highlights@.len() as int),
{
    let ghost h = highlight_pairs(highlights@);
    let mut best: Option<HighlightKind> = None;
    let mut i: usize = 0;
    while i < highlights.len()
        invariant
            i <= highlights@.len(),
            h == highlight_pairs(highlights@),
            best == kind_at(h, segment_start as int, i as int),
            best != Some(HighlightKind::Selection),
        decreases highlights.len() - i,
    {
        let highlight = &highlights[i];
        assert(h[i as int] == (highlight.range, highlight.kind));
        if highlight.range.start <= segment_start && segment_start < highlight.range.end {
            match highlight.kind {
                HighlightKind::Selection => {
                    proof { lemma_kind_at_selection_stays(h, segment_start as int, i + 1, highlights@.len() as int); }
                    return Some(HighlightKind::Selection);
                },
                HighlightKind::SearchActive => {
                    best = Some(HighlightKind::SearchActive);
                },
                HighlightKind::SearchPassive => {
                    if best.is_none() {
                        best = Some(HighlightKind::SearchPassive);
                    }
                },
            }
        }
        i = i + 1;
    }
    best
}

proof fn lemma_kind_at_selection_stays(h: Seq<(std::ops::Range<usize>, HighlightKind)>, s: int, m: int, n: int)
    requires
        0 < m <= n,
        kind_at(h, s, m) == Some(HighlightKind::Selection),
    ensures
        kind_at(h, s, n) == Some(HighlightKind::Selection),
    decreases n - m,
{
    if m < n {
        lemma_kind_at_selection_stays(h, s, m, n - 1);
    }
}

/// The part of `range` inside `slice_start..slice_end`, made slice-local; `None` when empty.
pub open spec fn clipped_local(range: std::ops::Range<usize>, slice_start: int, slice_end: int) -> Option<(int, int)> {
    let start = if range.start >= slice_start { range.start as int } else { slice_start };
    let end = if range.end <= slice_end { range.end as int } else { slice_end };
    if start < end {
        Some((if start >= slice_start { start - slice_start } else { 0 }, if end >= slice_start { end - slice_start } else { 0 }))
    } else {
        None
    }
}

/// Whether `r` is the range with the given bounds.
pub open spec fn range_is(r: std::ops::Range<usize>, bounds: (int, int)) -> bool {
    r.start == bounds.0 && r.end == bounds.1
}

/// A range clipped to a slice and made slice-local, or `None` when nothing is left.
pub fn local_range(range: Option<std::ops::Range<usize>>, slice_start: usize, slice_end: usize) -> (local: Option<std::ops::Range<usize>>)
    ensures
        match range {
            None => local is None,
            Some(r) => match clipped_local(r, slice_start as int, slice_end as int) {
                Some(b) => local is Some && range_is(local->0, b),
                None => local is None,
            },
        },
{
    let range = match range {
        Some(r) => r,
        None => {
            return None;
        },
    };
    let start = if range.start >= slice_start { range.start } else { slice_start };
    let end = if range.end <= slice_end { range.end } else { slice_end };
    if start < end {
        Some(start.saturating_sub(slice_start)..end.saturating_sub(slice_start))
    } else {
        None
    }
}

/// The matches of `ranges` (first `n`) that overlap the slice, clipped and
/// made slice-local, in order; and the new index of the active one if it survives.
pub open spec fn clipped_matches(ranges: Seq<std::ops::Range<usize>>, slice_start: int, slice_end: int, n: int) -> Seq<(int, int)>
    decreases n,
{
    if n <= 0 {
        Seq::empty()
    } else {
        let rest = clipped_matches(ranges, slice_start, slice_end, n - 1);
        match clipped_local(ranges[n - 1], slice_start, slice_end) {
            Some(b) => rest.push(b),
            None => rest,
        }
    }
}

/// Where the active match lands among the clipped matches, if it survives.
pub open spec fn clipped_active(ranges: Seq<std::ops::Range<usize>>, active: Option<usize>, slice_start: int, slice_end: int) -> Option<usize> {
    match active {
        Some(i) => if i < ranges.len() && clipped_local(ranges[i as int], slice_start, slice_end) is Some {
            Some(clipped_matches(ranges, slice_start, slice_end, i as int).len() as usize)
        } else {
            None
        },
        None => None,
    }
}

/// Search highlights clipped to `slice_start..slice_end` and made slice-local.
pub fn local_search_highlights(highlights: &SearchHighlightState, slice_start: usize, slice_end: usize) -> (local: SearchHighlightState)
    ensures
        local.ranges@.len() == clipped_matches(highlights.ranges@, slice_start as int, slice_end as int, highlights.ranges@.len() as int).len(),
        forall|k: int| 0 <= k < local.ranges@.len() ==> range_is(#[trigger] local.ranges@[k],
            clipped_matches(highlights.ranges@, slice_start as int, slice_end as int, highlights.ranges@.len() as int)[k]),
        local.active_range_index == clipped_active(highlights.ranges@, highlights.active_range_index, slice_start as int, slice_end as int),
{
    let ghost rs = highlights.ranges@;
    let mut local = SearchHighlightState::new();
    let mut index: usize = 0;
    while index < highlights.ranges.len()
        invariant
            index <= rs.len(),
            rs == highlights.ranges@,
            local.ranges@.len() == clipped_matches(rs, slice_start as int, slice_end as int, index as int).len(),
            forall|k: int| 0 <= k < local.ranges@.len() ==> range_is(#[trigger] local.ranges@[k],
                clipped_matches(rs, slice_start as int, slice_end as int, index as int)[k]),
            local.active_range_index == (match highlights.active_range_index {
                Some(i) => if i < index && clipped_local(rs[i as int], slice_start as int, slice_end as int) is Some {
                    Some(clipped_matches(rs, slice_start as int, slice_end as int, i as int).len() as usize)
                } else {
                    None
                },
                None => None,
            }),
        decreases rs.len() - index,
    {
        let clipped = local_range(Some(copy_range(&highlights.ranges[index])), slice_start, slice_end);
        if let Some(range) = clipped {
            if highlights.active_range_index == Some(index) {
                local.active_range_index = Some(local.ranges.len());
            }
            local.ranges.push(range);
        }
        index = index + 1;
        proof {
            let cm = clipped_matches(rs, slice_start as int, slice_end as int, index as int);
            assert forall|k: int| 0 <= k < local.ranges@.len() implies range_is(#[trigger] local.ranges@[k], cm[k]) by {
                if k < local.ranges@.len() - 1 || clipped is None {
                    assert(cm[k] == clipped_matches(rs, slice_start as int, slice_end as int, index - 1)[k]);
                }
            }
        }
    }
    local
}

/// The part of `range` inside the visible window, made window-local.
pub open spec fn windowed(range: std::ops::Range<usize>, visible: std::ops::Range<usize>) -> Option<(int, int)> {
    let start = if range.start >= visible.start { range.start } else { visible.start };
    let end = if range.end <= visible.end { range.end } else { visible.end };
    if start < end { Some((start - visible.start, end - visible.start)) } else { None }
}

/// A range clipped to the visible window and made window-local.
pub fn windowed_char_range(range: Option<std::ops::Range<usize>>, visible_char_range: &std::ops::Range<usize>) -> (local: Option<std::ops::Range<usize>>)
    ensures
        match range {
            None => local is None,
            Some(r) => match windowed(r, *visible_char_range) {
                Some(b) => local is Some && range_is(local->0, b),
                None => local is None,
            },
        },
{
    let range = match range {
        Some(r) => r,
        None => {
            return None;
        },
    };
    let start = if range.start >= visible_char_range.start { range.start } else { visible_char_range.start };
    let end = if range.end <= visible_char_range.end { range.end } else { visible_char_range.end };
    if start < end {
        Some((start - visible_char_range.start)..(end - visible_char_range.start))
    } else {
        None
    }
}

/// Search highlights clipped to the visible window and made window-local.
pub fn windowed_search_highlights(search_highlights: &SearchHighlightState, visible_char_range: &std::ops::Range<usize>) -> (local: SearchHighlightState)
    ensures
        local.ranges@.len() == clipped_matches(search_highlights.ranges@, visible_char_range.start as int,
            visible_char_range.end as int, search_highlights.ranges@.len() as int).len(),
        forall|k: int| 0 <= k < local.ranges@.len() ==> range_is(#[trigger] local.ranges@[k],
            clipped_matches(search_highlights.ranges@, visible_char_range.start as int, visible_char_range.end as int,
                search_highlights.ranges@.len() as int)[k]),
        local.active_range_index == clipped_active(search_highlights.ranges@, search_highlights.active_range_index,
            visible_char_range.start as int, visible_char_range.end as int),
{
    local_search_highlights(search_highlights, visible_char_range.start, visible_char_range.end)
}

} // verus!

verus! {

/// Whether the `k`-th highlight covers `segment_start` and is of `kind`.
pub open spec fn covers_with(h: Seq<(std::ops::Range<usize>, HighlightKind)>, k: int, segment_start: int, kind: HighlightKind) -> bool {
    h[k].0.start <= segment_start && segment_start < h[k].0.end && h[k].1 == kind
}

/// A painted segment takes the selection's highlight when a selection covers
/// it, else the active match's when one covers it, else a passive match's
/// when one covers it; uncovered, it has none.
pub proof fn segment_highlight_priority(h: Seq<(std::ops::Range<usize>, HighlightKind)>, segment_start: int, n: int)
    requires
        0 <= n <= h.len(),
    ensures
        (exists|k: int| 0 <= k < n && #[trigger] covers_with(h, k, segment_start, HighlightKind::Selection))
            <==> kind_at(h, segment_start, n) == Some(HighlightKind::Selection),
        !(exists|k: int| 0 <= k < n && #[trigger] covers_with(h, k, segment_start, HighlightKind::Selection))
            && (exists|k: int| 0 <= k < n && #[trigger] covers_with(h, k, segment_start, HighlightKind::SearchActive))
            ==> kind_at(h, segment_start, n) == Some(HighlightKind::SearchActive),
        (kind_at(h, segment_start, n) is None) <==> !(exists|k: int| 0 <= k < n
            && h[k].0.start <= segment_start && segment_start < #[trigger] h[k].0.end),
    decreases n,
{
    if n > 0 {
        segment_highlight_priority(h, segment_start, n - 1);
        let last = n - 1;
        if kind_at(h, segment_start, n) == Some(HighlightKind::Selection) {
            if kind_at(h, segment_start, n - 1) == Some(HighlightKind::Selection) {
                let k = choose|k: int| 0 <= k < n - 1 && #[trigger] covers_with(h, k, segment_start, HighlightKind::Selection);
                assert(covers_with(h, k, segment_start, HighlightKind::Selection));
            } else {
                assert(covers_with(h, last, segment_start, HighlightKind::Selection));
            }
        }
        if exists|k: int| 0 <= k < n && #[trigger] covers_with(h, k, segment_start, HighlightKind::Selection) {
            let k = choose|k: int| 0 <= k < n && #[trigger] covers_with(h, k, segment_start, HighlightKind::Selection);
            if k < last {
                assert(covers_with(h, k, segment_start, HighlightKind::Selection));
            }
        }
        if !(exists|k: int| 0 <= k < n && #[trigger] covers_with(h, k, segment_start, HighlightKind::Selection))
            && exists|k: int| 0 <= k < n && #[trigger] covers_with(h, k, segment_start, HighlightKind::SearchActive) {
            let k = choose|k: int| 0 <= k < n && #[trigger] covers_with(h, k, segment_start, HighlightKind::SearchActive);
            assert(!covers_with(h, last, segment_start, HighlightKind::Selection));
            assert(!(exists|j: int| 0 <= j < n - 1 && #[trigger] covers_with(h, j, segment_start, HighlightKind::Selection))) by {
                if exists|j: int| 0 <= j < n - 1 && #[trigger] covers_with(h, j, segment_start, HighlightKind::Selection) {
                    let j = choose|j: int| 0 <= j < n - 1 && #[trigger] covers_with(h, j, segment_start, HighlightKind::Selection);
                    assert(0 <= j < n && covers_with(h, j, segment_start, HighlightKind::Selection));
                }
            }
            if k < last {
                assert(covers_with(h, k, segment_start, HighlightKind::SearchActive));
                assert(kind_at(h, segment_start, n - 1) == Some(HighlightKind::SearchActive));
            } else {
                assert(covers_with(h, last, segment_start, HighlightKind::SearchActive));
            }
        }
        if !(exists|k: int| 0 <= k < n && h[k].0.start <= segment_start && segment_start < #[trigger] h[k].0.end) {
            assert(!(exists|k: int| 0 <= k < n - 1 && h[k].0.start <= segment_start && segment_start < #[trigger] h[k].0.end));
        }
        if exists|k: int| 0 <= k < n - 1 && h[k].0.start <= segment_start && segment_start < #[trigger] h[k].0.end {
            let k = choose|k: int| 0 <= k < n - 1 && h[k].0.start <= segment_start && segment_start < #[trigger] h[k].0.end;
            assert(0 <= k < n && h[k].0.start <= segment_start && segment_start < h[k].0.end);
        }
        if !(exists|k: int| 0 <= k < n && #[trigger] covers_with(h, k, segment_start, HighlightKind::Selection)) {
            assert(!(exists|k: int| 0 <= k < n - 1 && #[trigger] covers_with(h, k, segment_start, HighlightKind::Selection))) by {
                if exists|k: int| 0 <= k < n - 1 && #[trigger] covers_with(h, k, segment_start, HighlightKind::Selection) {
                    let k = choose|k: int| 0 <= k < n - 1 && #[trigger] covers_with(h, k, segment_start, HighlightKind::Selection);
                    assert(0 <= k < n && covers_with(h, k, segment_start, HighlightKind::Selection));
                }
            }
        }
    }
}

} // verus!

verus! {

proof fn lemma_clipped_matches_prefix(ranges: Seq<std::ops::Range<usize>>, s: int, e: int, m: int, n: int)
    requires
        0 <= m <= n,
    ensures
        clipped_matches(ranges, s, e, m).len() <= clipped_matches(ranges, s, e, n).len(),
        forall|k: int| 0 <= k < clipped_matches(ranges, s, e, m).len()
            ==> #[trigger] clipped_matches(ranges, s, e, m)[k] == clipped_matches(ranges, s, e, n)[k],
    decreases n - m,
{
    if m < n {
        lemma_clipped_matches_prefix(ranges, s, e, m, n - 1);
    }
}

proof fn lemma_clipped_matches_len(ranges: Seq<std::ops::Range<usize>>, s: int, e: int, n: int)
    requires
        0 <= n,
    ensures
        clipped_matches(ranges, s, e, n).len() <= n,
    decreases n,
{
    if n > 0 {
        lemma_clipped_matches_len(ranges, s, e, n - 1);
    }
}

proof fn lemma_clipped_matches_fit(ranges: Seq<std::ops::Range<usize>>, s: int, e: int, n: int)
    requires
        0 <= s <= e,
    ensures
        forall|k: int| 0 <= k < clipped_matches(ranges, s, e, n).len() ==>
            0 <= (#[trigger] clipped_matches(ranges, s, e, n)[k]).0 < clipped_matches(ranges, s, e, n)[k].1 <= e - s,
    decreases n,
{
    if n > 0 {
        lemma_clipped_matches_fit(ranges, s, e, n - 1);
        let rest = clipped_matches(ranges, s, e, n - 1);
        let all = clipped_matches(ranges, s, e, n);
        assert forall|k: int| 0 <= k < all.len() implies 0 <= (#[trigger] all[k]).0 < all[k].1 <= e - s by {
            if k < rest.len() {
                assert(all[k] == rest[k]);
            }
        }
    }
}

/// Search matches rebased onto a slice are non-empty and lie inside it, and
/// the active match, when it survives, points at its own clipped range.
pub proof fn rebased_matches_fit_slice(
    ranges: Seq<std::ops::Range<usize>>,
    active: Option<usize>,
    slice_start: int,
    slice_end: int,
)
    requires
        0 <= slice_start <= slice_end,
    ensures
        ({
            let cm = clipped_matches(ranges, slice_start, slice_end, ranges.len() as int);
            &&& forall|k: int| 0 <= k < cm.len() ==> 0 <= (#[trigger] cm[k]).0 < cm[k].1 <= slice_end - slice_start
            &&& match clipped_active(ranges, active, slice_start, slice_end) {
                Some(j) => j < cm.len() && Some(cm[j as int]) == clipped_local(ranges[active->0 as int], slice_start, slice_end),
                None => active is None || active->0 >= ranges.len()
                    || clipped_local(ranges[active->0 as int], slice_start, slice_end) is None,
            }
        }),
{
    lemma_clipped_matches_fit(ranges, slice_start, slice_end, ranges.len() as int);
    if let Some(i) = active {
        if i < ranges.len() && clipped_local(ranges[i as int], slice_start, slice_end) is Some {
            let upto = clipped_matches(ranges, slice_start, slice_end, i + 1);
            let before = clipped_matches(ranges, slice_start, slice_end, i as int);
            lemma_clipped_matches_len(ranges, slice_start, slice_end, i as int);
            assert(upto == before.push(clipped_local(ranges[i as int], slice_start, slice_end)->0));
            lemma_clipped_matches_prefix(ranges, slice_start, slice_end, i + 1, ranges.len() as int);
            assert(upto[before.len() as int] == clipped_matches(ranges, slice_start, slice_end, ranges.len() as int)[before.len() as int]);
        }
    }
}

} // verus!
