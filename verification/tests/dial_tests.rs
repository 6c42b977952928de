use qtrs_widgets::dial::Dial;
use qtrs_widgets::geometry::{Rect, Size};

const KEY_UP: u32 = 0x0100_0013;
const KEY_END: u32 = 0x0100_0011;

#[test]
fn dial_defaults() {
    let d = Dial::new();
    assert_eq!(d.state().minimum(), 0);
    assert_eq!(d.state().maximum(), 99);
    assert_eq!(d.state().value(), 0);
    assert!(!d.wrapping());
    assert!(!d.notches_visible());
    assert!(d.is_enabled());
    assert_eq!(d.geometry(), Rect::new(0, 0, 50, 50));
    assert_eq!(d.size_hint(), Size::new(50, 50));
}

#[test]
fn dial_press_drag_release_commits() {
    let mut d = Dial::new();
    d.mouse_press_event(1, 30);
    assert!(d.state().is_slider_down());
    assert_eq!(d.state().slider_position(), 30);
    d.mouse_move_event(40);
    assert_eq!(d.state().slider_position(), 40);
    d.mouse_release_event(1, 45);
    assert!(!d.state().is_slider_down());
    assert_eq!(d.state().value(), 45);
    assert_eq!(d.state().slider_position(), 45);
    // Without a held press a drag does nothing.
    d.mouse_move_event(10);
    assert_eq!(d.state().value(), 45);
}

#[test]
fn dial_press_ignored_when_disabled_or_empty_range() {
    let mut d = Dial::new();
    d.mouse_press_event(2, 30);
    assert!(!d.state().is_slider_down());
    d.state_mut().set_range(5, 5);
    d.mouse_press_event(1, 30);
    assert!(!d.state().is_slider_down());
    d.state_mut().set_range(0, 10);
    d.set_enabled(false);
    d.mouse_press_event(1, 3);
    assert!(!d.state().is_slider_down());
}

#[test]
fn dial_disable_releases_handle() {
    let mut d = Dial::new();
    d.mouse_press_event(1, 20);
    d.set_enabled(false);
    assert!(!d.state().is_slider_down());
    assert_eq!(d.state().value(), 20);
    d.mouse_release_event(1, 60);
    assert_eq!(d.state().value(), 20);
}

#[test]
fn dial_keys_step() {
    let mut d = Dial::new();
    assert!(d.key_press_event(KEY_UP));
    assert_eq!(d.state().value(), 1);
    assert!(d.key_press_event(KEY_END));
    assert_eq!(d.state().value(), 99);
    assert!(!d.key_press_event(0x41));
    d.set_enabled(false);
    assert!(!d.key_press_event(KEY_UP));
    assert_eq!(d.state().value(), 99);
}

#[test]
fn dial_setters() {
    let mut d = Dial::new();
    d.set_wrapping(true);
    assert!(d.wrapping());
    d.set_notches_visible(true);
    assert!(d.notches_visible());
    d.set_has_focus(true);
    assert!(d.has_focus());
    d.set_geometry(Rect::new(0, 0, 80, 80));
    assert_eq!(d.geometry(), Rect::new(0, 0, 80, 80));
}
