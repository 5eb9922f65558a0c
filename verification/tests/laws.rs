use scratchpad::buffer::{BufferState, PieceSource};
use scratchpad::display_text::{display_text_slice, preview_text_slice};
use scratchpad::editing::apply_text_insert_with_source;
use scratchpad::highlighting::{HighlightKind, TextHighlightRange, highlight_kind_for_segment};
use scratchpad::highlights::{SearchReplacementPreview, SearchReplacementPreviewEntry};
use scratchpad::types::{CharCursor, CursorRange};

#[test]
fn edit_undo_redo_round_trip() {
    let mut buffer = BufferState::new("sample.txt".to_owned(), "hello world".to_owned(), None);
    let selection = CursorRange::two(0, 5);
    let next = apply_text_insert_with_source(&mut buffer, &selection, "goodbye", PieceSource::Edit);
    assert_eq!(buffer.text(), "goodbye world");

    assert_eq!(buffer.undo_last_text_operation(), Some(selection));
    assert_eq!(buffer.text(), "hello world");
    assert_eq!(buffer.redo_last_text_operation(), Some(next));
    assert_eq!(buffer.text(), "goodbye world");
}

#[test]
fn inserted_line_breaks_take_the_buffer_ending() {
    let mut lf = BufferState::new("a.txt".to_owned(), "x\ny".to_owned(), None);
    apply_text_insert_with_source(&mut lf, &CursorRange::one(CharCursor::new(1)), "1\r\n2\r3", PieceSource::Paste);
    assert!(!lf.text().contains('\r'));

    let mut crlf = BufferState::new("b.txt".to_owned(), "x\r\ny".to_owned(), None);
    apply_text_insert_with_source(&mut crlf, &CursorRange::one(CharCursor::new(1)), "1\n2\r3", PieceSource::Paste);
    assert_eq!(crlf.text(), "x1\r\n2\r\n3\r\ny");
}

#[test]
fn single_replacement_keeps_coordinates_outside_its_range() {
    let preview = SearchReplacementPreview {
        entries: vec![SearchReplacementPreviewEntry { range: 12..14, replacement: "XYZ".to_owned() }],
    };
    let slice = preview_text_slice("abcdefgh", 10..18, Some(&preview));
    let map = slice.map.as_ref().unwrap();

    assert_eq!(slice.text, "abXYZefgh");
    assert_eq!(map.doc_to_display_cursor(1), 1);
    assert_eq!(map.doc_to_display_cursor(2), 2);
    assert_eq!(map.doc_to_display_cursor(4), 5);
    assert_eq!(map.doc_to_display_cursor(8), 9);
}

#[test]
fn selection_wins_over_search_matches() {
    let highlights = vec![
        TextHighlightRange { range: 0..10, kind: HighlightKind::SearchPassive },
        TextHighlightRange { range: 2..4, kind: HighlightKind::SearchActive },
        TextHighlightRange { range: 3..6, kind: HighlightKind::Selection },
    ];

    assert_eq!(highlight_kind_for_segment(&highlights, 3), Some(HighlightKind::Selection));
    assert_eq!(highlight_kind_for_segment(&highlights, 2), Some(HighlightKind::SearchActive));
    assert_eq!(highlight_kind_for_segment(&highlights, 8), Some(HighlightKind::SearchPassive));
    assert_eq!(highlight_kind_for_segment(&highlights, 12), None);
}

#[test]
fn visible_controls_round_trip_every_cursor() {
    let text = "a\u{1b}[1m\rb\u{200e}\n";
    let display = display_text_slice(text, true);
    let map = display.map.as_ref().unwrap();
    let count = text.chars().count();

    let mut previous = 0;
    for doc in 0..=count {
        let shown = map.doc_to_display_cursor(doc);
        assert_eq!(map.display_to_doc_cursor(shown), doc);
        if doc > 0 {
            assert!(shown > previous);
        }
        previous = shown;
    }
}
