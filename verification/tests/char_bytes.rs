use scratchpad::char_bytes::{CharByteMap, char_to_byte_map};

#[test]
fn byte_offsets_count_utf8_widths() {
    assert_eq!(char_to_byte_map("aé😀b"), vec![0, 1, 3, 7, 8]);
    assert_eq!(char_to_byte_map(""), vec![0]);
}

#[test]
fn ascii_text_needs_no_table() {
    let map = CharByteMap::build("abc");
    assert!(matches!(map, CharByteMap::Ascii { len: 3 }));
    assert_eq!(map.char_len(), 3);
    assert_eq!(map.byte_offset(2), 2);
}

#[test]
fn non_ascii_text_uses_the_table() {
    let map = CharByteMap::build("aé");
    assert_eq!(map.char_len(), 2);
    assert_eq!(map.byte_offset(1), 1);
    assert_eq!(map.byte_offset(2), 3);
}
