use qtrs_widgets::geometry::{Point, Rect, Size};
use qtrs_widgets::scroll::Orientation;
use qtrs_widgets::slider::{Slider, SliderPress, TickPosition};

const KEY_RIGHT: u32 = 0x0100_0014;

fn horizontal() -> Slider {
    Slider::with_orientation(Orientation::Horizontal)
}

#[test]
fn slider_defaults_and_geometry() {
    let s = horizontal();
    assert_eq!(s.geometry(), Rect::new(0, 0, 84, 20));
    assert_eq!(s.size_hint(), Size::new(84, 20));
    assert_eq!(s.minimum_size_hint(), Size::new(24, 20));
    assert_eq!(s.handle_offset(), 0);
    assert_eq!(s.handle_rect(), Rect::new(0, 0, 12, 20));
    let v = Slider::new();
    assert_eq!(v.geometry(), Rect::new(0, 0, 20, 84));
    // A vertical slider has its minimum at the bottom.
    assert_eq!(v.handle_rect(), Rect::new(0, 72, 20, 12));
    assert_eq!(v.tick_position(), TickPosition::NoTicks);
}

#[test]
fn pixel_to_value_rounds() {
    let s = horizontal();
    assert_eq!(s.pixel_pos_to_value(36), 50);
    assert_eq!(s.pixel_pos_to_value(-5), 0);
    assert_eq!(s.pixel_pos_to_value(500), 99);
}

#[test]
fn groove_press_pages_towards_pointer() {
    let mut s = horizontal();
    s.mouse_press_event(Point::new(50, 10), 1);
    assert_eq!(s.state().value(), 10);
    assert!(!s.state().is_slider_down());
    s.mouse_release_event(1);
    // Now at 10 the handle spans 7..19; a press left of it pages back.
    assert_eq!(s.handle_offset(), 7);
    s.mouse_press_event(Point::new(2, 10), 1);
    assert_eq!(s.state().value(), 0);
    s.mouse_release_event(1);
}

#[test]
fn handle_drag_follows_pointer() {
    let mut s = horizontal();
    s.mouse_press_event(Point::new(50, 10), 1);
    s.mouse_release_event(1);
    s.mouse_press_event(Point::new(10, 10), 1);
    assert!(s.state().is_slider_down());
    s.mouse_move_event(Point::new(40, 10));
    assert_eq!(s.state().slider_position(), 51);
    assert_eq!(s.state().value(), 51);
    s.mouse_release_event(1);
    assert!(!s.state().is_slider_down());
}

#[test]
fn middle_press_centres_handle() {
    let mut s = horizontal();
    s.mouse_press_event(Point::new(40, 10), 3);
    assert_eq!(s.state().value(), 47);
    assert!(s.state().is_slider_down());
    // A second press while one is held is ignored.
    s.mouse_press_event(Point::new(80, 10), 1);
    assert_eq!(s.state().value(), 47);
    s.mouse_release_event(2);
    assert!(s.state().is_slider_down());
    s.mouse_release_event(3);
    assert!(!s.state().is_slider_down());
}

#[test]
fn hover_tracking() {
    let mut s = horizontal();
    s.mouse_move_event(Point::new(5, 5));
    s.mouse_move_event(Point::new(50, 5));
    s.leave_event();
    s.mouse_press_event(Point::new(5, 5), 1);
    assert!(s.state().is_slider_down());
    s.set_enabled(false);
    assert!(!s.state().is_slider_down());
    s.mouse_press_event(Point::new(5, 5), 1);
    assert!(!s.state().is_slider_down());
    assert!(!s.key_press_event(KEY_RIGHT));
    s.set_enabled(true);
    assert!(s.key_press_event(KEY_RIGHT));
    assert_eq!(s.state().value(), 1);
}

#[test]
fn tick_values_follow_interval() {
    let mut s = horizontal();
    assert!(s.tick_values().is_empty());
    s.set_tick_position(TickPosition::TicksAbove);
    // Single steps are 1 pixel apart, so ticks fall on page steps.
    assert_eq!(s.tick_values(), vec![0, 10, 20, 30, 40, 50, 60, 70, 80, 90, 99]);
    s.set_tick_interval(25);
    assert_eq!(s.tick_values(), vec![0, 25, 50, 75, 99]);
    s.set_tick_interval(-3);
    assert_eq!(s.tick_interval(), 0);
    s.state_mut().set_range(0, 3);
    s.set_tick_interval(1);
    assert_eq!(s.tick_values(), vec![0, 1, 2, 3]);
    s.set_tick_position(TickPosition::TicksBothSides);
    assert_eq!(s.size_hint(), Size::new(84, 30));
}

#[test]
fn empty_range_ignores_press() {
    let mut s = horizontal();
    s.state_mut().set_range(5, 5);
    s.mouse_press_event(Point::new(40, 10), 1);
    assert_eq!(s.state().value(), 5);
    let _ = SliderPress::Nothing;
}
