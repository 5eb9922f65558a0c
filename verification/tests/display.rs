use scratchpad::scrolling::viewport_row_range;

/// The viewport's row range for a fractional top row, a viewport height and
/// a row height in points.
fn slice_math(top_row: f32, viewport_h: f32, row_h: f32, total: u32, overscan: u32) -> std::ops::Range<u32> {
    let visible_rows = (viewport_h / row_h).ceil() as u32 + 1;
    viewport_row_range(top_row.floor() as i32, top_row.ceil() as u32, visible_rows, overscan, total)
}

#[test]
fn viewport_slice_includes_overscan() {
    let r = slice_math(10.0, 200.0, 20.0, 100, 2);
    assert_eq!(r.start, 8);
    // 10 + ceil(200/20)+1 + 2 = 10 + 11 + 2 = 23
    assert_eq!(r.end, 23);
}

#[test]
fn viewport_slice_clamps_at_top_and_bottom() {
    let r = slice_math(0.0, 200.0, 20.0, 50, 5);
    assert_eq!(r.start, 0);
    let r = slice_math(48.0, 200.0, 20.0, 50, 5);
    assert_eq!(r.end, 50);
}

#[test]
fn fractional_top_row_rounds_outwards() {
    let r = slice_math(10.5, 40.0, 20.0, 100, 0);
    assert_eq!(r, 10..14);
}
