use qtrs_widgets::geometry::{Rect, Size};
use qtrs_widgets::lcd_number::{segment_outline, LCDNumber, LcdMode, SegmentStyle, Shade};

#[test]
fn fresh_display_shows_zero() {
    let l = LCDNumber::new();
    assert_eq!(l.digit_count(), 5);
    assert_eq!(l.digit_string(), "    0");
    assert_eq!(l.decimal_points(), &[false; 5]);
    assert_eq!(l.mode(), LcdMode::Dec);
    assert!(!l.small_decimal_point());
    assert_eq!(l.segment_style(), SegmentStyle::Filled);
    assert_eq!(l.size_hint(), Size::new(64, 23));
    assert_eq!(l.geometry(), Rect::new(0, 0, 64, 23));
    let big = LCDNumber::with_digit_count(500);
    assert_eq!(big.digit_count(), 99);
    let none = LCDNumber::with_digit_count(0);
    assert_eq!(none.digit_string(), "");
}

#[test]
fn integers_in_each_base() {
    let mut l = LCDNumber::new();
    assert!(!l.display_i32(42));
    assert_eq!(l.digit_string(), "   42");
    assert!(!l.display_i32(-5));
    assert_eq!(l.digit_string(), "   -5");
    l.set_hex_mode();
    assert!(!l.display_i32(255));
    assert_eq!(l.digit_string(), "   ff");
    l.set_bin_mode();
    assert!(!l.display_i32(5));
    assert_eq!(l.digit_string(), "  101");
    l.set_oct_mode();
    assert!(!l.display_i32(8));
    assert_eq!(l.digit_string(), "   10");
    l.set_dec_mode();
    assert_eq!(l.mode(), LcdMode::Dec);
}

#[test]
fn overflow_keeps_display() {
    let mut l = LCDNumber::new();
    l.display_i32(7);
    assert!(l.check_overflow_i32(123456));
    assert!(!l.check_overflow_i32(12345));
    assert!(l.display_i32(123456));
    assert_eq!(l.digit_string(), "    7");
    assert!(l.check_overflow_i32(-12345));
}

#[test]
fn text_with_full_width_points() {
    let mut l = LCDNumber::new();
    l.display_str("1.5");
    assert_eq!(l.digit_string(), "  1.5");
    l.display_str("1234567");
    assert_eq!(l.digit_string(), "34567");
}

#[test]
fn text_with_small_points() {
    let mut l = LCDNumber::new();
    l.set_small_decimal_point(true);
    l.display_str("1.5");
    assert_eq!(l.digit_string(), "   15");
    assert_eq!(l.decimal_points(), &[false, false, false, true, false]);
    l.display_str("..");
    assert_eq!(l.digit_string(), "     ");
    assert_eq!(l.decimal_points(), &[false, false, false, true, true]);
    l.display_str("123456");
    assert_eq!(l.digit_string(), "12345");
    assert_eq!(l.size_hint(), Size::new(55, 23));
}

#[test]
fn digit_count_keeps_right_aligned_content() {
    let mut l = LCDNumber::new();
    l.display_i32(42);
    assert!(!l.set_digit_count(3));
    assert_eq!(l.digit_string(), " 42");
    assert!(!l.set_digit_count(6));
    assert_eq!(l.digit_string(), "    42");
    assert!(!l.set_digit_count(0));
    assert!(l.set_digit_count(2));
    assert_eq!(l.digit_string(), "  ");
    assert!(!l.set_digit_count(2));
}

#[test]
fn segment_styles_round_trip() {
    let mut l = LCDNumber::new();
    for s in [SegmentStyle::Outline, SegmentStyle::Flat, SegmentStyle::Filled] {
        l.set_segment_style(s);
        assert_eq!(l.segment_style(), s);
    }
    l.set_visible(false);
    assert!(!l.is_visible());
    l.set_enabled(false);
    assert!(!l.is_enabled());
}

#[test]
fn top_segment_outline() {
    let (start, edges) = segment_outline(0, (10, 20), 10, false);
    assert_eq!(start, (10, 20));
    assert_eq!(
        edges,
        vec![(19, 20, Shade::Light), (17, 22, Shade::Dark), (12, 22, Shade::Dark), (10, 20, Shade::Dark)]
    );
}

#[test]
fn negative_segment_length_divides_toward_zero() {
    // -7 / 5 is -1 and -1 / 2 is 0 when rounding toward zero.
    let (start, edges) = segment_outline(3, (0, 0), -7, false);
    assert_eq!(start, (0, -7));
    assert_eq!(
        edges,
        vec![
            (-1, -7, Shade::Light),
            (-7, -7, Shade::Light),
            (-8, -7, Shade::Light),
            (-7, -7, Shade::Dark),
            (-1, -7, Shade::Dark),
            (0, -7, Shade::Dark),
        ]
    );
}
