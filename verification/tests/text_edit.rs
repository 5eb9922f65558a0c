use scratchpad::highlighting::{local_range, windowed_char_range, windowed_search_highlights};
use scratchpad::highlights::SearchHighlightState;

#[test]
fn windowed_search_highlights_rebases_ranges_into_visible_slice() {
    let highlights = SearchHighlightState {
        ranges: vec![2..6, 10..16, 18..20],
        active_range_index: Some(1),
    };

    let rebased = windowed_search_highlights(&highlights, &(8..18));

    assert_eq!(rebased.ranges, vec![2..8]);
    assert_eq!(rebased.active_range_index, Some(0));
}

#[test]
fn windowed_search_highlights_clips_partial_matches_at_window_edges() {
    let highlights = SearchHighlightState {
        ranges: vec![4..9, 12..18],
        active_range_index: Some(0),
    };

    let rebased = windowed_search_highlights(&highlights, &(6..14));

    assert_eq!(rebased.ranges, vec![0..3, 6..8]);
    assert_eq!(rebased.active_range_index, Some(0));
}

#[test]
fn windowed_search_highlights_drops_active_index_outside_window() {
    let highlights = SearchHighlightState {
        ranges: vec![0..2, 12..18],
        active_range_index: Some(0),
    };

    let rebased = windowed_search_highlights(&highlights, &(6..14));

    assert_eq!(rebased.ranges, vec![6..8]);
    assert_eq!(rebased.active_range_index, None);
}

#[test]
fn windowed_char_range_clips_selection_to_visible_slice() {
    assert_eq!(windowed_char_range(Some(4..12), &(6..10)), Some(0..4));
    assert_eq!(windowed_char_range(Some(0..4), &(6..10)), None);
}

#[test]
fn local_range_clips_and_rebases() {
    assert_eq!(local_range(Some(3..9), 5, 8), Some(0..3));
    assert_eq!(local_range(Some(1..2), 5, 8), None);
    assert_eq!(local_range(None, 5, 8), None);
}
