use scratchpad::scrolling::gutter_digit_count;

#[test]
fn gutter_digits_follow_line_count_without_fixed_three_digit_floor() {
    assert_eq!(gutter_digit_count(0), 1);
    assert_eq!(gutter_digit_count(9), 1);
    assert_eq!(gutter_digit_count(10), 2);
    assert_eq!(gutter_digit_count(999), 3);
}

#[test]
fn gutter_digits_for_large_counts() {
    assert_eq!(gutter_digit_count(1000), 4);
    assert_eq!(gutter_digit_count(usize::MAX), usize::MAX.to_string().len());
}
