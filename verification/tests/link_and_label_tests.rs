use qtrs_widgets::command_link_button::{CommandLinkButton, CommandLinkState};
use qtrs_widgets::geometry::{Point, Rect, Size};
use qtrs_widgets::label::{Alignment, Label};

const KEY_SPACE: u32 = 0x20;
const KEY_RETURN: u32 = 0x0100_0004;

#[test]
fn command_link_defaults() {
    let b = CommandLinkButton::new("Install");
    assert_eq!(b.title(), "Install");
    assert_eq!(b.description(), "");
    assert_eq!(b.state(), CommandLinkState::Normal);
    assert_eq!(b.geometry(), Rect::new(0, 0, 240, 56));
    assert!(!b.has_focus());
    assert!(b.is_enabled());
    let d = CommandLinkButton::with_description("Install", "Adds the files");
    assert_eq!(d.description(), "Adds the files");
}

#[test]
fn command_link_press_release_inside_clicks() {
    let mut b = CommandLinkButton::new("Go");
    b.mouse_press_event(Point::new(10, 10), 1);
    assert_eq!(b.state(), CommandLinkState::Pressed);
    assert!(b.has_focus());
    assert!(b.mouse_release_event(Point::new(20, 20), 1));
    assert_eq!(b.state(), CommandLinkState::Hovered);
    b.leave_event();
    assert_eq!(b.state(), CommandLinkState::Normal);
}

#[test]
fn command_link_release_outside_does_not_click() {
    let mut b = CommandLinkButton::new("Go");
    b.mouse_press_event(Point::new(10, 10), 1);
    assert!(!b.mouse_release_event(Point::new(300, 20), 1));
    assert_eq!(b.state(), CommandLinkState::Normal);
    assert!(!b.mouse_release_event(Point::new(20, 20), 1));
}

#[test]
fn command_link_ignores_other_buttons_and_outside_presses() {
    let mut b = CommandLinkButton::new("Go");
    b.mouse_press_event(Point::new(10, 10), 2);
    assert_eq!(b.state(), CommandLinkState::Normal);
    b.mouse_press_event(Point::new(240, 10), 1);
    assert_eq!(b.state(), CommandLinkState::Normal);
    assert!(!b.has_focus());
}

#[test]
fn command_link_hover() {
    let mut b = CommandLinkButton::new("Go");
    b.enter_event();
    assert_eq!(b.state(), CommandLinkState::Hovered);
    b.mouse_press_event(Point::new(1, 1), 1);
    b.enter_event();
    assert_eq!(b.state(), CommandLinkState::Pressed);
    b.leave_event();
    assert_eq!(b.state(), CommandLinkState::Pressed);
}

#[test]
fn command_link_keys_click() {
    let mut b = CommandLinkButton::new("Go");
    b.key_press_event(KEY_SPACE);
    assert_eq!(b.state(), CommandLinkState::Pressed);
    assert!(b.key_release_event(KEY_SPACE));
    assert_eq!(b.state(), CommandLinkState::Normal);
    assert!(!b.key_release_event(KEY_SPACE));
    b.key_press_event(KEY_RETURN);
    assert!(b.key_release_event(KEY_RETURN));
    b.key_press_event(0x41);
    assert_eq!(b.state(), CommandLinkState::Normal);
}

#[test]
fn command_link_size_hint() {
    let mut b = CommandLinkButton::new("Go");
    assert_eq!(b.size_hint(30, 17, 500, 14), Size::new(160, 50));
    assert_eq!(b.size_hint(200, 17, 500, 14), Size::new(240, 50));
    b.set_description("More");
    assert_eq!(b.size_hint(30, 17, 200, 14), Size::new(240, 55));
    assert_eq!(b.size_hint(30, 10, 10, 10), Size::new(160, 50));
    b.set_title("Other");
    assert_eq!(b.title(), "Other");
}

#[test]
fn label_sizes_from_text() {
    let l = Label::new("Hi", 12, 16);
    assert_eq!(l.geometry(), Rect::new(0, 0, 60, 24));
    assert_eq!(l.size_hint(12, 16), Size::new(40, 22));
    let wide = Label::new("A long caption", 120, 20);
    assert_eq!(wide.geometry(), Rect::new(0, 0, 130, 26));
    assert_eq!(wide.size_hint(120, 20), Size::new(130, 26));
    assert_eq!(wide.text(), "A long caption");
}

#[test]
fn label_setters() {
    let mut l = Label::new("", 0, 0);
    assert_eq!(l.alignment(), Alignment::Left);
    l.set_text("x");
    assert_eq!(l.text(), "x");
    l.set_alignment(Alignment::Right);
    assert_eq!(l.alignment(), Alignment::Right);
    l.set_visible(false);
    assert!(!l.is_visible());
    l.set_enabled(false);
    assert!(!l.is_enabled());
    l.set_geometry(Rect::new(1, 2, 3, 4));
    assert_eq!(l.geometry(), Rect::new(1, 2, 3, 4));
}
