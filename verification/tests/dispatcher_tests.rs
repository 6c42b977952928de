use qtrs_widgets::accessibility::AccessibleRole;
use qtrs_widgets::focus::FocusPolicy;
use qtrs_widgets::geometry::{Point, Rect};
use qtrs_widgets::hit_test::{dispatch_event_to_tree, Dispatch, EventTreeDispatcher, Route, TreeEvent};
use qtrs_widgets::widget_node::WidgetNode;

fn widget(id: u64, geometry: Rect, policy: FocusPolicy, children: Vec<WidgetNode>) -> WidgetNode {
    WidgetNode {
        id,
        geometry,
        visible: true,
        enabled: true,
        has_focus: false,
        focus_policy: policy,
        accessible_role: AccessibleRole::Group,
        accessible_name: String::new(),
        accessible_value: None,
        accessible_actions: vec![],
        children,
    }
}

/// Window 1 holding two focusable buttons, 2 at (10, 10) and 3 at (50, 10).
fn window() -> WidgetNode {
    let a = widget(2, Rect::new(10, 10, 30, 20), FocusPolicy::StrongFocus, vec![]);
    let b = widget(3, Rect::new(50, 10, 30, 20), FocusPolicy::StrongFocus, vec![]);
    widget(1, Rect::new(0, 0, 100, 100), FocusPolicy::NoFocus, vec![a, b])
}

fn only(route: Route) -> Dispatch {
    Dispatch { dismissed_popup: None, leave: None, enter: None, route }
}

#[test]
fn mouse_move_tracks_hover() {
    let w = window();
    let mut d = EventTreeDispatcher::new();
    let r = d.dispatch_event(&w, TreeEvent::MouseMove { x: 15, y: 15 });
    assert_eq!(r.enter, Some((2, Point::new(5, 5))));
    assert_eq!(r.leave, None);
    assert_eq!(r.route, Route::Deliver(2, Point::new(5, 5)));
    let r = d.dispatch_event(&w, TreeEvent::MouseMove { x: 16, y: 15 });
    assert_eq!(r, only(Route::Deliver(2, Point::new(6, 5))));
    let r = d.dispatch_event(&w, TreeEvent::MouseMove { x: 55, y: 15 });
    assert_eq!(r.leave, Some(2));
    assert_eq!(r.enter, Some((3, Point::new(5, 5))));
    let r = d.dispatch_event(&w, TreeEvent::MouseMove { x: 150, y: 15 });
    assert_eq!(r.leave, Some(3));
    assert_eq!(r.route, Route::Unhandled);
    assert_eq!(d.handle_mouse_leave(), None);
}

#[test]
fn hover_leave_goes_to_last_hovered() {
    let w = window();
    let mut d = EventTreeDispatcher::new();
    assert_eq!(d.dispatch_event(&w, TreeEvent::HoverLeave), only(Route::Unhandled));
    d.dispatch_event(&w, TreeEvent::MouseMove { x: 15, y: 15 });
    assert_eq!(d.dispatch_event(&w, TreeEvent::HoverLeave), only(Route::DeliverHovered(2)));
    assert_eq!(d.handle_mouse_leave(), Some(2));
}

#[test]
fn press_focuses_clicked_widget() {
    let w = window();
    let mut d = EventTreeDispatcher::new();
    let r = d.dispatch_event(&w, TreeEvent::MouseButtonPress { x: 60, y: 20, button: 1 });
    assert_eq!(r, only(Route::Deliver(3, Point::new(10, 10))));
    assert_eq!(d.focus_manager().focused_widget_id(), Some(3));
    // A right press does not move focus.
    d.dispatch_event(&w, TreeEvent::MouseButtonPress { x: 15, y: 15, button: 2 });
    assert_eq!(d.focus_manager().focused_widget_id(), Some(3));
}

#[test]
fn popup_grab_and_dismissal() {
    let w = window();
    let mut d = EventTreeDispatcher::new();
    d.popup_manager_mut().open_popup(3, Rect::new(50, 10, 30, 20), true);
    // Inside the popup: the grabber receives the press relative to its geometry.
    let r = d.dispatch_event(&w, TreeEvent::MouseButtonPress { x: 55, y: 12, button: 1 });
    assert_eq!(r, only(Route::Deliver(3, Point::new(5, 2))));
    let r = d.dispatch_event(&w, TreeEvent::MouseButtonRelease { x: 20, y: 12, button: 1 });
    assert_eq!(r, only(Route::Deliver(3, Point::new(-30, 2))));
    // Outside: the popup closes and the widget under the pointer is pressed.
    let r = d.dispatch_event(&w, TreeEvent::MouseButtonPress { x: 15, y: 15, button: 1 });
    assert_eq!(r.dismissed_popup, Some(3));
    assert_eq!(r.route, Route::Deliver(2, Point::new(5, 5)));
    assert_eq!(d.popup_manager().mouse_grabber(), None);
}

#[test]
fn positional_events_go_to_hit_widget() {
    let w = window();
    assert_eq!(
        dispatch_event_to_tree(&w, TreeEvent::Wheel { x: 15, y: 15 }),
        only(Route::Deliver(2, Point::new(5, 5)))
    );
    assert_eq!(
        dispatch_event_to_tree(&w, TreeEvent::MouseButtonDblClick { x: 90, y: 90, button: 1 }),
        only(Route::Deliver(1, Point::new(90, 90)))
    );
    assert_eq!(
        dispatch_event_to_tree(&w, TreeEvent::ContextMenu { x: -5, y: 0 }),
        only(Route::Unhandled)
    );
    assert_eq!(
        dispatch_event_to_tree(&w, TreeEvent::HoverMove { x: 55, y: 15 }),
        only(Route::Deliver(3, Point::new(5, 5)))
    );
    assert_eq!(
        dispatch_event_to_tree(&w, TreeEvent::Resize { width: 300, height: 200 }),
        only(Route::ResizeRoot(300, 200))
    );
    assert_eq!(dispatch_event_to_tree(&w, TreeEvent::Other), only(Route::Unhandled));
}

#[test]
fn tab_moves_focus_and_keys_go_to_focused() {
    let w = window();
    let mut d = EventTreeDispatcher::new();
    let r = d.dispatch_event(&w, TreeEvent::KeyPress { key: 0x0100_0001, modifiers: 0 });
    assert_eq!(r, only(Route::Consumed));
    assert_eq!(d.focus_manager().focused_widget_id(), Some(2));
    d.dispatch_event(&w, TreeEvent::KeyPress { key: 0x09, modifiers: 0 });
    assert_eq!(d.focus_manager().focused_widget_id(), Some(3));
    d.dispatch_event(&w, TreeEvent::KeyPress { key: 0x09, modifiers: 0x0200_0000 });
    assert_eq!(d.focus_manager().focused_widget_id(), Some(2));
    let r = d.dispatch_event(&w, TreeEvent::KeyPress { key: 0x41, modifiers: 0 });
    assert_eq!(r, only(Route::FocusedThenRoot(Some(2))));
    assert_eq!(d.dispatch_event(&w, TreeEvent::KeyRelease), only(Route::FocusedThenRoot(Some(2))));
    assert_eq!(d.dispatch_event(&w, TreeEvent::InputMethod), only(Route::FocusedThenRoot(Some(2))));
    assert_eq!(d.dispatch_event(&w, TreeEvent::FocusOut), only(Route::FocusedAndRoot(Some(2))));
}

#[test]
fn focus_in_on_activation_focuses_first_widget() {
    let w = window();
    let mut d = EventTreeDispatcher::new();
    assert_eq!(
        d.dispatch_event(&w, TreeEvent::FocusIn { active_window: false }),
        only(Route::FocusedAndRoot(None))
    );
    assert_eq!(d.focus_manager().focused_widget_id(), None);
    assert_eq!(
        d.dispatch_event(&w, TreeEvent::FocusIn { active_window: true }),
        only(Route::FocusedAndRoot(None))
    );
    assert_eq!(d.focus_manager().focused_widget_id(), Some(2));
    assert_eq!(
        d.dispatch_event(&w, TreeEvent::FocusIn { active_window: true }),
        only(Route::FocusedAndRoot(Some(2)))
    );
}

#[test]
fn keys_without_focusable_widgets_go_to_root() {
    let lone = widget(1, Rect::new(0, 0, 10, 10), FocusPolicy::NoFocus, vec![]);
    let mut d = EventTreeDispatcher::new();
    assert_eq!(
        d.dispatch_event(&lone, TreeEvent::KeyPress { key: 0x09, modifiers: 0 }),
        only(Route::FocusedThenRoot(None))
    );
}
