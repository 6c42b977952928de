use qtrs_widgets::accessibility::AccessibleRole;
use qtrs_widgets::focus::FocusPolicy;
use qtrs_widgets::geometry::{Point, Rect};
use qtrs_widgets::hit_test::hit_test;
use qtrs_widgets::popup::PopupManager;
use qtrs_widgets::radio_button::{ButtonGroup, GroupNotice, RadioButton, RadioSiblings};
use qtrs_widgets::widget_node::WidgetNode;

fn widget(id: u64, geometry: Rect, children: Vec<WidgetNode>) -> WidgetNode {
    WidgetNode {
        id,
        geometry,
        visible: true,
        enabled: true,
        has_focus: false,
        focus_policy: FocusPolicy::NoFocus,
        accessible_role: AccessibleRole::Group,
        accessible_name: String::new(),
        accessible_value: None,
        accessible_actions: vec![],
        children,
    }
}

fn window() -> WidgetNode {
    let inner = widget(3, Rect::new(5, 5, 10, 10), vec![]);
    let panel = widget(2, Rect::new(10, 10, 50, 50), vec![inner]);
    let overlay = widget(4, Rect::new(40, 40, 30, 30), vec![]);
    widget(1, Rect::new(0, 0, 100, 100), vec![panel, overlay])
}

#[test]
fn hit_test_finds_deepest_widget() {
    let w = window();
    assert_eq!(hit_test(&w, Point::new(17, 18)), Some((3, Point::new(2, 3))));
    assert_eq!(hit_test(&w, Point::new(12, 12)), Some((2, Point::new(2, 2))));
    assert_eq!(hit_test(&w, Point::new(90, 5)), Some((1, Point::new(90, 5))));
}

#[test]
fn hit_test_topmost_sibling_wins() {
    let w = window();
    assert_eq!(hit_test(&w, Point::new(45, 45)), Some((4, Point::new(5, 5))));
}

#[test]
fn hit_test_outside_or_hidden() {
    let mut w = window();
    assert_eq!(hit_test(&w, Point::new(100, 5)), None);
    assert_eq!(hit_test(&w, Point::new(-1, 5)), None);
    w.children[1].visible = false;
    assert_eq!(hit_test(&w, Point::new(45, 45)), Some((2, Point::new(35, 35))));
    w.visible = false;
    assert_eq!(hit_test(&w, Point::new(45, 45)), None);
}

#[test]
fn popup_dismissed_by_outside_press() {
    let mut m = PopupManager::new();
    m.open_popup(9, Rect::new(10, 10, 20, 20), true);
    assert_eq!(m.mouse_grabber(), Some(9));
    assert_eq!(m.handle_mouse_press(Point::new(15, 15)), None);
    assert_eq!(m.mouse_grabber(), Some(9));
    assert_eq!(m.handle_mouse_press(Point::new(50, 50)), Some(9));
    assert_eq!(m.mouse_grabber(), None);
    assert_eq!(m.close_popup(), None);
}

#[test]
fn popup_without_auto_dismiss_stays() {
    let mut m = PopupManager::default();
    assert_eq!(m.handle_mouse_press(Point::new(0, 0)), None);
    m.open_popup(3, Rect::new(0, 0, 5, 5), false);
    assert_eq!(m.handle_mouse_press(Point::new(50, 50)), None);
    assert_eq!(m.mouse_grabber(), Some(3));
    assert_eq!(m.close_popup(), Some(3));
    m.set_mouse_grabber(Some(4));
    assert_eq!(m.mouse_grabber(), Some(4));
}

#[test]
fn radio_siblings_are_exclusive() {
    let mut s = RadioSiblings::new();
    let a = s.add(RadioButton::new("a"));
    let b = s.add(RadioButton::new("b"));
    let c = s.add(RadioButton::new("c"));
    assert!(s.click(a));
    assert!(s.is_checked(a));
    assert!(s.click(b));
    assert!(!s.is_checked(a));
    assert!(s.is_checked(b));
    assert!(!s.click(b));
    assert!(s.is_checked(b));
    assert!(s.set_checked(c, true));
    assert!(!s.is_checked(b));
    assert!(s.set_checked(c, false));
    assert!(!s.is_checked(a) && !s.is_checked(b) && !s.is_checked(c));
}

#[test]
fn radio_events_and_disabled_buttons() {
    let mut s = RadioSiblings::new();
    let a = s.add(RadioButton::new("a"));
    let b = s.add(RadioButton::new("b"));
    s.set_enabled(b, false);
    assert!(s.mouse_press_event(b, 1));
    assert!(!s.is_checked(b));
    assert!(!s.mouse_press_event(a, 2));
    assert!(!s.is_checked(a));
    assert!(s.key_press_event(a, 0x20));
    assert!(s.is_checked(a));
    assert!(!s.key_press_event(a, 0x41));
    assert_eq!(s.len(), 2);
    assert_eq!(s.button(b).text(), "b");
}

#[test]
fn button_group_reports_changes() {
    let mut g = ButtonGroup::new();
    assert!(g.is_exclusive());
    g.add_button(100, 1);
    g.add_button(200, 2);
    assert_eq!(g.id_of(200), Some(2));
    assert_eq!(g.id_of(300), None);
    assert_eq!(g.set_checked(1, true), Some(GroupNotice::Checked(1)));
    assert_eq!(g.checked_id(), Some(1));
    assert_eq!(g.set_checked(1, true), None);
    assert_eq!(g.set_checked(2, false), None);
    assert_eq!(g.set_checked(1, false), Some(GroupNotice::Unchecked(1)));
    assert_eq!(g.checked_id(), None);
}

#[test]
fn button_group_remove_forgets_checked() {
    let mut g = ButtonGroup::new();
    g.add_button(100, 1);
    g.add_button(200, 2);
    g.add_button(100, 5);
    assert_eq!(g.buttons(), &[(200, 2), (100, 5)]);
    g.set_checked(2, true);
    g.remove_button(100);
    assert_eq!(g.checked_id(), Some(2));
    g.remove_button(200);
    assert_eq!(g.checked_id(), None);
    assert!(g.buttons().is_empty());
}
