use qtrs_widgets::accessibility::AccessibleAction;
use qtrs_widgets::action::ActionSet;
use qtrs_widgets::button::{Button, ButtonState};
use qtrs_widgets::checkbox::{CheckBox, CheckState};
use qtrs_widgets::dialog::{Dialog, DialogCode};
use qtrs_widgets::geometry::Point;
use qtrs_widgets::group_box::{GroupBox, GroupChild};
use qtrs_widgets::label::Alignment;
use qtrs_widgets::progress_bar::{ProgressBar, ProgressTextDirection};
use qtrs_widgets::scroll::Orientation;
use qtrs_widgets::size_policy::Policy;

#[test]
fn button_extent_has_minimum() {
    let b = Button::new("OK", 20, 10);
    let g = b.geometry();
    assert_eq!((g.width, g.height), (80, 30));
    let b = Button::new("A long caption", 100, 20);
    let g = b.geometry();
    assert_eq!((g.width, g.height), (124, 34));
}

#[test]
fn button_click_cycle() {
    let mut b = Button::new("OK", 20, 10);
    assert_eq!(b.state(), ButtonState::Normal);
    b.enter_event();
    assert_eq!(b.state(), ButtonState::Hovered);
    b.mouse_press_event(1);
    assert_eq!(b.state(), ButtonState::Pressed);
    b.enter_event();
    assert_eq!(b.state(), ButtonState::Pressed);
    assert!(b.mouse_release_event(Point::new(5, 5), 1));
    assert_eq!(b.state(), ButtonState::Pressed);
    b.leave_event();
    assert_eq!(b.state(), ButtonState::Normal);
}

#[test]
fn button_release_outside_cancels() {
    let mut b = Button::new("OK", 20, 10);
    b.mouse_press_event(1);
    assert!(!b.mouse_release_event(Point::new(80, 5), 1));
    assert_eq!(b.state(), ButtonState::Normal);
    assert!(!b.mouse_release_event(Point::new(5, 5), 1));
}

#[test]
fn disabled_button_ignores_input() {
    let mut b = Button::new("OK", 20, 10);
    b.set_enabled(false);
    b.mouse_press_event(1);
    assert_eq!(b.state(), ButtonState::Normal);
    b.key_press_event(0x20);
    assert_eq!(b.state(), ButtonState::Normal);
    assert_eq!(b.perform_accessible_action(AccessibleAction::Invoke), (false, false));
}

#[test]
fn button_keyboard_activation() {
    let mut b = Button::new("OK", 20, 10);
    b.key_press_event(0x0100_0004);
    assert_eq!(b.state(), ButtonState::Pressed);
    assert!(b.key_release_event(0x20));
    assert!(!b.key_release_event(0x41));
    let mut c = Button::new("OK", 20, 10);
    c.key_press_event(0x41);
    assert_eq!(c.state(), ButtonState::Normal);
}

#[test]
fn button_accessible_actions() {
    let mut b = Button::new("OK", 20, 10);
    assert_eq!(b.perform_accessible_action(AccessibleAction::Invoke), (true, true));
    assert_eq!(b.perform_accessible_action(AccessibleAction::Focus), (true, false));
    assert!(b.has_focus());
    assert_eq!(b.perform_accessible_action(AccessibleAction::Expand), (false, false));
}

#[test]
fn button_activates_its_action() {
    let mut set = ActionSet::new();
    let a = set.add_action("&Bold");
    set.set_checkable(a, true);
    let mut b = Button::new("x", 10, 10);
    b.set_action(Some(a), &set);
    assert_eq!(b.text(), "Bold");
    assert!(b.activate(&mut set));
    assert!(set.action(a).is_checked());
    set.set_enabled(a, false);
    assert!(!b.activate(&mut set));
    assert!(set.action(a).is_checked());
    let plain = Button::new("y", 10, 10);
    assert!(plain.activate(&mut set));
}

#[test]
fn checkbox_two_state_toggle() {
    let mut c = CheckBox::new("Remember me", 90, 16);
    assert_eq!(c.check_state(), CheckState::Unchecked);
    assert!(c.toggle());
    assert!(c.is_checked());
    assert!(c.toggle());
    assert_eq!(c.check_state(), CheckState::Unchecked);
    c.set_check_state(CheckState::PartiallyChecked);
    c.toggle();
    assert_eq!(c.check_state(), CheckState::Checked);
}

#[test]
fn checkbox_tristate_cycle() {
    let mut c = CheckBox::new("x", 10, 16);
    c.set_tristate(true);
    c.toggle();
    assert_eq!(c.check_state(), CheckState::PartiallyChecked);
    c.toggle();
    assert_eq!(c.check_state(), CheckState::Checked);
    c.toggle();
    assert_eq!(c.check_state(), CheckState::Unchecked);
}

#[test]
fn checkbox_events_and_disabled() {
    let mut c = CheckBox::new("x", 10, 25);
    assert!(c.mouse_press_event(1));
    assert!(c.is_checked());
    assert!(!c.mouse_press_event(2));
    assert!(c.key_press_event(0x20));
    assert!(!c.is_checked());
    c.set_enabled(false);
    assert!(!c.toggle());
    assert!(c.key_press_event(0x20));
    assert!(!c.is_checked());
    assert!(!c.set_checked(false));
    assert!(c.set_checked(true));
}

#[test]
fn dialog_result_codes() {
    let mut d = Dialog::new();
    assert!(d.is_modal());
    assert_eq!(d.result(), DialogCode::Rejected);
    d.accept();
    assert_eq!(d.result(), DialogCode::Accepted);
    assert!(!d.is_visible());
    assert_eq!(d.result().code(), 1);
    d.open();
    assert!(d.is_visible());
    assert!(d.key_press_event(0x1B));
    assert_eq!(d.result(), DialogCode::Rejected);
    assert_eq!(d.result().code(), 0);
    assert!(!d.key_press_event(0x41));
    assert_eq!(DialogCode::default(), DialogCode::Rejected);
}

#[test]
fn progress_bar_defaults_and_text() {
    let mut p = ProgressBar::new();
    assert_eq!((p.minimum(), p.maximum(), p.value()), (0, 100, -1));
    assert_eq!(p.text(), "");
    assert!(p.set_value(42));
    assert_eq!(p.text(), "42%");
    assert!(!p.set_value(42));
    assert!(!p.set_value(101));
    assert_eq!(p.value(), 42);
    p.set_format("%v of %m (%p%%)");
    assert_eq!(p.text(), "42 of 100 (42%%)");
    p.reset_format();
    assert_eq!(p.format(), "%p%");
}

#[test]
fn progress_bar_percentage_rounds_down() {
    let mut p = ProgressBar::new();
    p.set_range(0, 3);
    p.set_value(1);
    assert_eq!(p.text(), "33%");
    p.set_value(2);
    assert_eq!(p.text(), "66%");
    p.set_value(3);
    assert_eq!(p.text(), "100%");
    p.set_range(-10, 10);
    p.set_value(-10);
    p.set_format("%v:%p");
    assert_eq!(p.text(), "-10:0");
}

#[test]
fn progress_bar_range_resets_value() {
    let mut p = ProgressBar::new();
    p.set_value(80);
    p.set_range(0, 50);
    assert_eq!(p.value(), -1);
    p.set_range(10, 5);
    assert_eq!((p.minimum(), p.maximum()), (10, 10));
    assert!(p.is_busy());
    assert_eq!(p.value(), 9);
    p.set_minimum(i32::MIN);
    assert_eq!(p.minimum(), i32::MIN);
    p.reset();
    assert_eq!(p.value(), i32::MIN);
    p.set_maximum(-20);
    assert_eq!((p.minimum(), p.maximum()), (i32::MIN, -20));
}

#[test]
fn progress_bar_zero_range_accepts_any_value() {
    let mut p = ProgressBar::new();
    p.set_range(0, 0);
    assert!(p.set_value(7));
    assert_eq!(p.value(), 7);
    assert_eq!(p.text(), "");
}

#[test]
fn progress_bar_orientation_transposes() {
    let mut p = ProgressBar::new();
    assert_eq!(p.orientation(), Orientation::Horizontal);
    p.set_orientation(Orientation::Vertical);
    assert_eq!(p.orientation(), Orientation::Vertical);
    p.set_text_direction(ProgressTextDirection::BottomToTop);
    assert_eq!(p.text_direction(), ProgressTextDirection::BottomToTop);
    p.set_alignment(Alignment::Center);
    assert_eq!(p.alignment(), Alignment::Center);
    let _ = Policy::Fixed;
}

#[test]
fn group_box_unchecking_disables_children() {
    let mut g = GroupBox::new("&Options");
    assert_eq!(g.display_title(), "Options");
    g.add_child(1, true);
    g.add_child(2, false);
    g.add_child(3, true);
    g.set_checkable(true);
    assert!(g.is_checked());
    assert!(g.set_checked(false));
    let enabled: Vec<bool> = g.children().iter().map(|c| c.enabled).collect();
    assert_eq!(enabled, vec![false, false, false]);
    assert!(g.set_checked(true));
    let enabled: Vec<bool> = g.children().iter().map(|c| c.enabled).collect();
    assert_eq!(enabled, vec![true, false, true]);
    assert!(g.children().iter().all(|c| !c.auto_disabled));
}

#[test]
fn group_box_child_added_while_unchecked_starts_disabled() {
    let mut g = GroupBox::new("t");
    g.set_checkable(true);
    g.set_checked(false);
    g.add_child(9, true);
    assert_eq!(g.children(), vec![GroupChild { id: 9, enabled: false, auto_disabled: true }]);
    g.set_checked(true);
    assert_eq!(g.children(), vec![GroupChild { id: 9, enabled: true, auto_disabled: false }]);
    g.remove_child(9);
    assert!(g.children().is_empty());
}

#[test]
fn group_box_click_and_keys() {
    let mut g = GroupBox::new("t");
    assert_eq!(g.click(), None);
    g.set_checkable(true);
    assert_eq!(g.click(), Some(false));
    assert!(!g.is_checked());
    g.key_press_event(0x20, false);
    assert_eq!(g.key_release_event(0x20), Some(true));
    assert!(g.is_checked());
    assert_eq!(g.key_release_event(0x20), None);
    g.mouse_press_event(1, true);
    assert_eq!(g.mouse_release_event(1, false), None);
    assert!(g.is_checked());
    g.mouse_press_event(1, true);
    assert_eq!(g.mouse_release_event(1, true), Some(false));
}

#[test]
fn group_box_reenabling_keeps_children_disabled() {
    let mut g = GroupBox::new("t");
    g.set_checkable(true);
    g.add_child(1, true);
    g.set_checked(false);
    g.set_enabled(false);
    g.set_child_enabled(0, true);
    g.set_enabled(true);
    assert!(!g.children()[0].enabled);
    g.set_checkable(false);
    assert!(g.children()[0].enabled);
    assert!(!g.is_checked());
}
