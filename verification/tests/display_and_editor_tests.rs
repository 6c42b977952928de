use qtrs_widgets::dock_widget::{ContentPlacement, DockFeatures, DockWidget, DOCK_TITLE_HEIGHT};
use qtrs_widgets::frame::{FrameShadow, FrameShape, FrameStyle};
use qtrs_widgets::geometry::Rect;
use qtrs_widgets::lcd_number::{int_to_lcd_string, segments_for, strip_fraction_zeros, LcdMode, SegmentStyle, MAX_LCD_DIGITS};
use qtrs_widgets::plain_text_edit::PlainTextEdit;
use qtrs_widgets::text_edit::TextEdit;

#[test]
fn lcd_segments() {
    assert_eq!(segments_for('1'), vec![2, 5]);
    assert_eq!(segments_for('8'), vec![0, 1, 2, 3, 4, 5, 6]);
    assert_eq!(segments_for('b'), vec![1, 3, 4, 5, 6]);
    assert_eq!(segments_for('-'), vec![3]);
    assert_eq!(segments_for('.'), vec![7]);
    assert_eq!(segments_for('O'), segments_for('0'));
    assert_eq!(segments_for('g'), segments_for('9'));
    assert_eq!(LcdMode::default(), LcdMode::Dec);
    assert_eq!(SegmentStyle::default(), SegmentStyle::Filled);
    assert_eq!(MAX_LCD_DIGITS, 99);
}

#[test]
fn lcd_integer_text() {
    assert_eq!(int_to_lcd_string(-42, LcdMode::Dec, 5), Some("  -42".to_string()));
    assert_eq!(int_to_lcd_string(42, LcdMode::Dec, 2), Some("42".to_string()));
    assert_eq!(int_to_lcd_string(-42, LcdMode::Dec, 2), None);
    assert_eq!(int_to_lcd_string(255, LcdMode::Hex, 2), Some("ff".to_string()));
    assert_eq!(int_to_lcd_string(255, LcdMode::Hex, 1), None);
    assert_eq!(int_to_lcd_string(8, LcdMode::Oct, 3), Some(" 10".to_string()));
    assert_eq!(int_to_lcd_string(5, LcdMode::Bin, 4), Some(" 101".to_string()));
    assert_eq!(int_to_lcd_string(-5, LcdMode::Bin, 3), None);
    assert_eq!(int_to_lcd_string(i32::MIN, LcdMode::Hex, 9), Some("-80000000".to_string()));
    assert_eq!(int_to_lcd_string(0, LcdMode::Dec, 0), None);
}

#[test]
fn lcd_fraction_zeros() {
    assert_eq!(strip_fraction_zeros("1.2300"), "1.23");
    assert_eq!(strip_fraction_zeros("5.000"), "5");
    assert_eq!(strip_fraction_zeros("100"), "100");
    assert_eq!(strip_fraction_zeros("1."), "1");
}

#[test]
fn frame_bits_and_widths() {
    let mut f = FrameStyle::new(FrameShape::Box, FrameShadow::Sunken);
    assert_eq!(f.bits(), 0x31);
    assert_eq!(f.frame_width(), 2);
    f.set_bits(0x22);
    assert_eq!(f.shape, FrameShape::Panel);
    assert_eq!(f.shadow, FrameShadow::Raised);
    assert_eq!(f.frame_width(), 1);
    let plain = FrameStyle::new(FrameShape::Box, FrameShadow::Plain);
    assert_eq!(plain.contents_rect(Rect::new(0, 0, 100, 50)), Rect::new(1, 1, 98, 48));
    assert_eq!(FrameStyle::new(FrameShape::StyledPanel, FrameShadow::Sunken).frame_width(), 2);
    assert_eq!(FrameStyle::new(FrameShape::NoFrame, FrameShadow::Plain).frame_width(), 0);
    assert_eq!(FrameShape::from_bits(FrameShape::VLine.bits()), FrameShape::VLine);
    assert_eq!(FrameShadow::from_bits(0x30), FrameShadow::Sunken);
}

#[test]
fn dock_widget_basics() {
    let mut d = DockWidget::new("Tools");
    assert_eq!(d.title(), "Tools");
    assert!(d.features().contains(DockFeatures::floatable()));
    assert_eq!(d.set_widget(7).0, None);
    assert_eq!(d.set_widget(8).0, Some(7));
    assert_eq!(d.widget(), Some(8));
    d.remove_child(7);
    assert_eq!(d.widget(), Some(8));
    d.remove_child(8);
    assert_eq!(d.widget(), None);
    d.set_features(DockFeatures::closable());
    d.set_floating(true);
    assert!(!d.is_floating());
    d.set_features(DockFeatures::all());
    d.set_floating(true);
    assert!(d.is_floating());
    assert!(DockFeatures::all().contains(DockFeatures::movable()));
    assert!(!DockFeatures::none().contains(DockFeatures::closable()));
    assert_eq!(DOCK_TITLE_HEIGHT, 24);
}

#[test]
fn text_edit_editing_and_undo() {
    let mut t = TextEdit::new();
    t.set_plain_text("hello");
    assert_eq!(t.cursor_position(), 0);
    t.set_cursor_position(5);
    t.insert_text(" world");
    assert_eq!(t.to_plain_text(), "hello world");
    t.select_all();
    assert_eq!(t.selected_text(), "hello world");
    t.insert_text("bye");
    assert_eq!(t.to_plain_text(), "bye");
    t.undo();
    assert_eq!(t.to_plain_text(), "hello world");
    t.undo();
    assert_eq!(t.to_plain_text(), "hello");
    t.redo();
    assert_eq!(t.to_plain_text(), "hello world");
    t.set_cursor_position(100);
    assert_eq!(t.cursor_position(), 11);
}

#[test]
fn text_edit_read_only_blocks_nothing_programmatic() {
    let mut t = TextEdit::new();
    t.set_read_only(true);
    assert!(t.is_read_only());
    t.set_plain_text("x");
    assert_eq!(t.to_plain_text(), "x");
}

#[test]
fn plain_text_edit_block_limit() {
    let mut p = PlainTextEdit::new();
    p.set_maximum_block_count(2);
    p.append_plain_text("one");
    p.append_plain_text("two");
    p.append_line("three");
    assert_eq!(p.to_plain_text(), "two\nthree");
    assert_eq!(p.maximum_block_count(), 2);
    let mut q = PlainTextEdit::with_text("a\nb\nc\nd");
    q.set_maximum_block_count(3);
    assert_eq!(q.plain_text(), "b\nc\nd");
    q.set_maximum_block_count(0);
    q.append_plain_text("e");
    assert_eq!(q.plain_text(), "b\nc\nd\ne");
    q.set_plain_text("");
    q.append_plain_text("first");
    assert_eq!(q.plain_text(), "first");
}

#[test]
fn plain_text_edit_insert_trims() {
    let mut p = PlainTextEdit::with_text("x");
    p.set_maximum_block_count(2);
    p.set_cursor_position(1);
    p.insert_text("\ny\nz");
    assert_eq!(p.plain_text(), "y\nz");
    p.select_all();
    assert_eq!(p.selected_text(), "y\nz");
    p.set_read_only(true);
    assert!(p.is_read_only());
}

#[test]
fn dock_widget_places_its_content() {
    let mut d = DockWidget::new("Tools");
    d.set_geometry(Rect::new(10, 20, 200, 100));
    let (old, p) = d.set_widget(5);
    assert_eq!(old, None);
    assert_eq!(p, ContentPlacement { widget: 5, rect: Rect::new(10, 44, 200, 76), visible: true });
    assert_eq!(
        d.set_visible(false),
        Some(ContentPlacement { widget: 5, rect: Rect::new(10, 44, 200, 76), visible: false })
    );
    // A dock shorter than its title bar leaves the content no height.
    assert_eq!(
        d.set_geometry(Rect::new(0, 0, 50, 10)),
        Some(ContentPlacement { widget: 5, rect: Rect::new(0, 24, 50, 0), visible: false })
    );
    assert_eq!(d.placement(), Some(ContentPlacement { widget: 5, rect: Rect::new(0, 24, 50, 0), visible: false }));
    d.remove_child(5);
    assert_eq!(d.set_visible(true), None);
}
