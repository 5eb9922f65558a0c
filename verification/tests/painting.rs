use scratchpad::display_text::display_text_slice;
use scratchpad::highlights::{SearchReplacementPreview, SearchReplacementPreviewEntry};
use scratchpad::painting::{
    active_ime_range, local_cursor, local_cursor_for_slice, preview_label, visible_preview_entries,
};
use scratchpad::types::CharCursor;

#[test]
fn ime_active_range_is_clipped_to_the_composed_text() {
    assert_eq!(active_ime_range(Some(1..9), "kana"), Some(1..4));
    assert_eq!(active_ime_range(Some(4..9), "kana"), None);
    assert_eq!(active_ime_range(Some(2..2), "kana"), None);
    assert_eq!(active_ime_range(None, "kana"), None);
    assert_eq!(active_ime_range(Some(0..2), "かな"), Some(0..2));
}

#[test]
fn local_cursor_rebases_and_maps_through_display_glyphs() {
    let cursor = CharCursor { index: 12, prefer_next_row: true };
    let local = local_cursor(cursor, 10, None);
    assert_eq!(local, CharCursor { index: 2, prefer_next_row: true });

    let display = display_text_slice("a\nb", true);
    let mapped = local_cursor(CharCursor::new(12), 10, display.map.as_ref());
    assert_eq!(mapped.index, 3);
    assert_eq!(local_cursor(CharCursor::new(3), 10, None).index, 0);
}

#[test]
fn local_cursor_for_slice_stays_within_the_slice() {
    assert_eq!(local_cursor_for_slice(CharCursor::new(50), 10, 5, None).index, 5);

    let display = display_text_slice("a\nb", true);
    let mapped = local_cursor_for_slice(CharCursor::new(99), 0, 3, display.map.as_ref());
    assert_eq!(mapped.index, 4);
}

fn preview(ranges: &[std::ops::Range<usize>]) -> SearchReplacementPreview {
    SearchReplacementPreview {
        entries: ranges
            .iter()
            .map(|range| SearchReplacementPreviewEntry { range: range.clone(), replacement: "x".to_owned() })
            .collect(),
    }
}

#[test]
fn visible_preview_entries_cover_the_slice() {
    let p = preview(&[0..2, 5..7, 9..12, 20..22]);

    assert_eq!(visible_preview_entries(&p, &(6..10)), 1..3);
    assert_eq!(visible_preview_entries(&p, &(2..5)), 1..1);
    assert_eq!(visible_preview_entries(&p, &(0..100)), 0..4);
}

#[test]
fn preview_label_flattens_and_shortens() {
    assert_eq!(preview_label("a\r\nb"), "a  b");
    let long = "y".repeat(85);
    let label = preview_label(&long);
    assert_eq!(label, format!("{}...", "y".repeat(80)));
    assert_eq!(preview_label(&"z".repeat(80)), "z".repeat(80));
}

#[test]
fn visible_row_window_keeps_two_rows_of_overscan() {
    assert_eq!(scratchpad::painting::visible_row_window(3, 3, 8), 1..6);
    assert_eq!(scratchpad::painting::visible_row_window(1, 6, 8), 0..8);
    assert_eq!(scratchpad::painting::visible_row_window(0, 0, 0), 0..0);
}
