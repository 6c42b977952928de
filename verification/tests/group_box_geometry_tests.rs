use qtrs_widgets::geometry::{Point, Rect, Size};
use qtrs_widgets::group_box::{GroupBox, GroupBoxSubControl, TitleMetrics};
use qtrs_widgets::label::Alignment;

const M: TitleMetrics = TitleMetrics { text_height: 16, title_width: 60 };

fn size() -> Size {
    Size::new(200, 100)
}

#[test]
fn frame_and_contents_below_title() {
    let g = GroupBox::new("Options");
    assert_eq!(g.frame_rect(size(), M), Rect::new(0, 8, 200, 92));
    assert_eq!(g.contents_rect(size(), M), Rect::new(2, 18, 196, 80));
    assert_eq!(g.label_rect(size(), M), Rect::new(8, 0, 60, 16));
    assert_eq!(g.check_box_rect(size(), M), Rect::new(0, 0, 0, 0));
    assert_eq!(g.minimum_size_hint(M), Size::new(76, 20));
}

#[test]
fn hit_test_parts() {
    let g = GroupBox::new("Options");
    assert_eq!(g.hit_test(Point::new(10, 5), size(), M), GroupBoxSubControl::Label);
    assert_eq!(g.hit_test(Point::new(100, 50), size(), M), GroupBoxSubControl::Contents);
    assert_eq!(g.hit_test(Point::new(1, 50), size(), M), GroupBoxSubControl::Frame);
    assert_eq!(g.hit_test(Point::new(100, 3), size(), M), GroupBoxSubControl::NoSubControl);
    assert!(!g.is_title_control(Point::new(100, 50), size(), M));
}

#[test]
fn checkable_title_has_indicator() {
    let mut g = GroupBox::new("Options");
    g.set_checkable(true);
    assert_eq!(g.check_box_rect(size(), M), Rect::new(8, 1, 13, 13));
    assert_eq!(g.label_rect(size(), M), Rect::new(24, 0, 60, 16));
    assert_eq!(g.hit_test(Point::new(10, 5), size(), M), GroupBoxSubControl::CheckBox);
    assert_eq!(g.hit_test(Point::new(30, 5), size(), M), GroupBoxSubControl::Label);
    assert!(g.is_title_control(Point::new(10, 5), size(), M));
    assert_eq!(g.minimum_size_hint(M), Size::new(95, 20));
}

#[test]
fn centred_and_flat_titles() {
    let mut g = GroupBox::new("Options");
    g.set_alignment(Alignment::Center);
    assert_eq!(g.label_rect(size(), M), Rect::new(70, 0, 60, 16));
    g.set_alignment(Alignment::Right);
    assert_eq!(g.label_rect(size(), M), Rect::new(132, 0, 60, 16));
    g.set_flat(true);
    assert_eq!(g.contents_rect(size(), M), Rect::new(0, 16, 200, 84));
    assert_eq!(g.label_rect(size(), M), Rect::new(140, 0, 60, 16));
    let empty = GroupBox::new("");
    assert_eq!(empty.frame_rect(size(), M), Rect::new(0, 0, 200, 100));
    assert_eq!(empty.hit_test(Point::new(10, 1), size(), M), GroupBoxSubControl::Frame);
}
