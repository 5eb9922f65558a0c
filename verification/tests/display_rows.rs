use scratchpad::display_rows::{
    DisplayRowTable, GalleyRowShape, display_row_metadata, gutter_row_range, max_gutter_line_number,
    row_flags, snapshot_gutter_rows,
};
use scratchpad::scrolling::DisplayRow;

fn shapes() -> Vec<GalleyRowShape> {
    // "alpha\n" wrapped as "alp" + "ha\n", then "bravo" on its own row.
    vec![
        GalleyRowShape { char_count_including_newline: 3, ends_with_newline: false },
        GalleyRowShape { char_count_including_newline: 3, ends_with_newline: true },
        GalleyRowShape { char_count_including_newline: 5, ends_with_newline: false },
    ]
}

#[test]
fn display_snapshot_records_document_line_and_char_bases() {
    let meta = display_row_metadata(&shapes(), 40, 5, None, &[]);

    assert_eq!(meta[0].logical_line, 5);
    assert_eq!(meta[0].char_range, 40..43);
    assert_eq!(meta[1].logical_line, 5);
    assert_eq!(meta[1].wrap_index, 1);
    assert_eq!(meta[2].logical_line, 6);
    assert_eq!(meta[2].char_range, 46..51);
    assert_eq!(meta[2].wrap_index, 0);
}

#[test]
fn row_overlays_mark_selection_and_search() {
    let meta = display_row_metadata(&shapes(), 0, 0, Some(&(4..5)), &[9..10]);

    assert_eq!(meta.iter().map(|m| m.has_selection).collect::<Vec<_>>(), vec![false, true, false]);
    assert_eq!(meta.iter().map(|m| m.has_search).collect::<Vec<_>>(), vec![false, false, true]);
    let flags = row_flags(&meta[1], true);
    assert!(flags.ascii && flags.has_selection && !flags.has_search && flags.long_line);
}

#[test]
fn row_table_answers_row_queries() {
    let meta = display_row_metadata(&shapes(), 40, 5, None, &[]);
    let table = DisplayRowTable::from_metadata(&meta, 5);

    assert_eq!(table.row_count(), 3);
    assert_eq!(table.logical_line_for(DisplayRow(2)), Some(6));
    assert_eq!(table.logical_line_for(DisplayRow(3)), None);
    assert_eq!(table.row_char_range(DisplayRow(1)), Some(43..46));
    assert_eq!(table.row_for_char_offset(44), Some(DisplayRow(1)));
    assert_eq!(table.row_for_char_offset(51), Some(DisplayRow(2)));
    assert_eq!(table.row_for_char_offset(52), None);
    assert_eq!(table.document_row_for_snapshot_row(DisplayRow(1)), Some(6));
    assert_eq!(table.row_for_document_row(7), Some(DisplayRow(2)));
    assert_eq!(table.row_for_document_row(4), None);
}

#[test]
fn gutter_numbers_only_leading_rows() {
    let meta = display_row_metadata(&shapes(), 0, 9, None, &[]);
    let table = DisplayRowTable::from_metadata(&meta, 9);

    assert_eq!(snapshot_gutter_rows(&table), vec![(0, 10), (2, 11)]);
    assert_eq!(max_gutter_line_number(Some(&table), 3), 11);
    assert_eq!(max_gutter_line_number(Some(&table), 30), 30);
    assert_eq!(max_gutter_line_number(None, 7), 7);
}

#[test]
fn fallback_gutter_rows_are_limited_to_visible_viewport() {
    // Viewport from y = 200 to y = 260 with 20-point rows.
    let first = (200.0_f32 / 20.0).floor() as usize;
    let last = (260.0_f32 / 20.0).ceil() as usize;

    assert_eq!(gutter_row_range(first, last, 10_000), 8..15);
}

#[test]
fn gutter_rows_stop_at_the_row_count() {
    assert_eq!(gutter_row_range(0, 1, 2), 0..2);
    assert_eq!(gutter_row_range(1, 5, 100), 0..7);
}

/// Row shapes of "alpha\nbravo" laid out without wrapping.
fn alpha_bravo() -> Vec<GalleyRowShape> {
    vec![
        GalleyRowShape { char_count_including_newline: 6, ends_with_newline: true },
        GalleyRowShape { char_count_including_newline: 5, ends_with_newline: false },
    ]
}

#[test]
fn sliced_snapshot_resolves_document_rows_and_rejects_outside_offsets() {
    let meta = display_row_metadata(&alpha_bravo(), 40, 90, None, &[]);
    let table = DisplayRowTable::from_metadata(&meta, 90);
    let document_row = |offset: u32| {
        table.row_for_char_offset(offset).and_then(|row| table.document_row_for_snapshot_row(row))
    };

    assert_eq!(table.row_for_char_offset(39), None);
    assert_eq!(document_row(40), Some(90));
    assert_eq!(document_row(46), Some(91));
    assert_eq!(table.row_for_document_row(90), Some(DisplayRow(0)));
    assert_eq!(table.row_for_document_row(91), Some(DisplayRow(1)));
    assert_eq!(table.row_for_document_row(12), None);
}

#[test]
fn display_snapshot_records_selection_and_search_flags() {
    let search_ranges = std::iter::once(47..49).collect::<Vec<_>>();
    let meta = display_row_metadata(&alpha_bravo(), 40, 5, Some(&(41..43)), &search_ranges);

    assert!(meta[0].has_selection);
    assert!(meta[1].has_search);
}
