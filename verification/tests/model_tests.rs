use qtrs_widgets::accessibility::{AccessibleAction, AccessibleId, AccessibleNode, AccessibleRole, AccessibleState, AccessibleTree};
use qtrs_widgets::focus::{collect_tab_focusable, find_widget_by_id, FocusManager, FocusPolicy};
use qtrs_widgets::layout::distribute_1d_space;
use qtrs_widgets::scroll::Orientation;
use qtrs_widgets::size_policy::{transposed_policy, Policy, QSizePolicy};
use qtrs_widgets::slider::{slider_position_from_value, slider_value_from_position, SliderAction, SliderState};
use qtrs_widgets::geometry::Rect;
use qtrs_widgets::widget_node::WidgetNode;

fn node(id: u64, policy: FocusPolicy, children: Vec<WidgetNode>) -> WidgetNode {
    WidgetNode {
        id,
        geometry: Rect::new(0, 0, 10, 10),
        visible: true,
        enabled: true,
        has_focus: false,
        focus_policy: policy,
        accessible_role: AccessibleRole::Group,
        accessible_name: format!("w{}", id),
        accessible_value: None,
        accessible_actions: vec![],
        children,
    }
}

fn sample_tree() -> WidgetNode {
    let mut hidden = node(5, FocusPolicy::StrongFocus, vec![node(6, FocusPolicy::StrongFocus, vec![])]);
    hidden.visible = false;
    node(
        1,
        FocusPolicy::NoFocus,
        vec![
            node(2, FocusPolicy::TabFocus, vec![node(3, FocusPolicy::NoFocus, vec![])]),
            node(4, FocusPolicy::ClickFocus, vec![]),
            hidden,
            node(7, FocusPolicy::StrongFocus, vec![]),
        ],
    )
}

#[test]
fn focus_policies() {
    assert!(FocusPolicy::TabFocus.accepts_tab());
    assert!(!FocusPolicy::TabFocus.accepts_click());
    assert!(FocusPolicy::WheelFocus.accepts_click());
    assert!(!FocusPolicy::NoFocus.accepts_tab());
    assert_eq!(FocusPolicy::default(), FocusPolicy::NoFocus);
}

#[test]
fn tab_order_skips_hidden_subtrees() {
    let root = sample_tree();
    let mut order = Vec::new();
    collect_tab_focusable(&root, &mut order);
    assert_eq!(order, vec![2, 7]);
    assert!(find_widget_by_id(&root, 6).is_some());
    assert!(find_widget_by_id(&root, 42).is_none());
}

#[test]
fn tab_and_backtab_cycle() {
    let root = sample_tree();
    let mut fm = FocusManager::new();
    assert!(fm.focus_next(&root));
    assert_eq!(fm.focused_widget_id(), Some(2));
    assert!(fm.focus_next(&root));
    assert_eq!(fm.focused_widget_id(), Some(7));
    assert!(fm.focus_next(&root));
    assert_eq!(fm.focused_widget_id(), Some(2));
    assert!(fm.focus_previous(&root));
    assert_eq!(fm.focused_widget_id(), Some(7));
    assert!(fm.focus_next(&root));
    assert_eq!(fm.focused_widget_id(), Some(2));
    let mut fresh = FocusManager::new();
    assert!(fresh.focus_previous(&root));
    assert_eq!(fresh.focused_widget_id(), Some(7));
}

#[test]
fn set_focus_rules() {
    let root = sample_tree();
    let mut fm = FocusManager::new();
    assert!(fm.set_focus(&root, Some(4)));
    assert!(!fm.set_focus(&root, Some(4)));
    assert!(!fm.set_focus(&root, Some(99)));
    assert_eq!(fm.focused_widget_id(), None);
    assert!(!fm.clear_focus(&root));
    fm.set_focus(&root, Some(2));
    assert!(fm.clear_focus(&root));
    assert_eq!(fm.focused_widget_id(), None);
}

#[test]
fn click_focus_climbs_to_parent() {
    let root = sample_tree();
    let mut fm = FocusManager::new();
    assert!(fm.handle_mouse_click(&root, 4));
    assert_eq!(fm.focused_widget_id(), Some(4));
    assert!(!fm.handle_mouse_click(&root, 3));
    assert_eq!(fm.focused_widget_id(), Some(4));
    assert!(fm.handle_mouse_click(&root, 6));
    assert_eq!(fm.focused_widget_id(), Some(6));
}

#[test]
fn accessible_tree_structure() {
    let mut t = AccessibleTree::new();
    assert!(t.set_root(AccessibleNode::new(AccessibleId(1), AccessibleRole::Window, "main")).is_ok());
    assert!(t.set_root(AccessibleNode::new(AccessibleId(9), AccessibleRole::Window, "x")).is_err());
    assert!(t.insert(AccessibleId(1), AccessibleNode::new(AccessibleId(2), AccessibleRole::Group, "g")).is_ok());
    assert!(t.insert(AccessibleId(2), AccessibleNode::new(AccessibleId(3), AccessibleRole::Button, "ok")).is_ok());
    assert!(t.insert(AccessibleId(1), AccessibleNode::new(AccessibleId(4), AccessibleRole::Text, "t")).is_ok());
    assert!(t.insert(AccessibleId(8), AccessibleNode::new(AccessibleId(5), AccessibleRole::Text, "t")).is_err());
    assert!(t.insert(AccessibleId(1), AccessibleNode::new(AccessibleId(3), AccessibleRole::Text, "dup")).is_err());
    assert_eq!(t.root(), Some(AccessibleId(1)));
    assert_eq!(t.children(AccessibleId(1)), &[AccessibleId(2), AccessibleId(4)]);
    assert_eq!(t.parent(AccessibleId(3)), Some(AccessibleId(2)));
    assert_eq!(t.node(AccessibleId(3)).unwrap().name, "ok");
    assert!(t.children(AccessibleId(77)).is_empty());
}

#[test]
fn accessible_tree_reparent_and_remove() {
    let mut t = AccessibleTree::new();
    t.set_root(AccessibleNode::new(AccessibleId(1), AccessibleRole::Window, "main")).unwrap();
    t.insert(AccessibleId(1), AccessibleNode::new(AccessibleId(2), AccessibleRole::Group, "g")).unwrap();
    t.insert(AccessibleId(2), AccessibleNode::new(AccessibleId(3), AccessibleRole::Button, "b")).unwrap();
    t.insert(AccessibleId(1), AccessibleNode::new(AccessibleId(4), AccessibleRole::Group, "h")).unwrap();
    assert!(!t.reparent(AccessibleId(2), AccessibleId(3)));
    assert!(!t.reparent(AccessibleId(1), AccessibleId(4)));
    assert!(t.reparent(AccessibleId(2), AccessibleId(4)));
    assert_eq!(t.children(AccessibleId(1)), &[AccessibleId(4)]);
    assert_eq!(t.children(AccessibleId(4)), &[AccessibleId(2)]);
    assert!(!t.remove(AccessibleId(1)));
    assert!(t.remove(AccessibleId(4)));
    assert!(t.node(AccessibleId(3)).is_none());
    assert!(t.node(AccessibleId(2)).is_none());
    assert!(t.children(AccessibleId(1)).is_empty());
    assert!(!t.remove(AccessibleId(4)));
}

#[test]
fn accessible_tree_update() {
    let mut t = AccessibleTree::new();
    t.set_root(AccessibleNode::new(AccessibleId(1), AccessibleRole::Window, "a")).unwrap();
    let mut n = AccessibleNode::new(AccessibleId(1), AccessibleRole::Dialog, "b");
    n.states.push(AccessibleState::Busy);
    n.actions.push(AccessibleAction::Invoke);
    assert!(t.update(n).is_ok());
    let got = t.node(AccessibleId(1)).unwrap();
    assert_eq!(got.role, AccessibleRole::Dialog);
    assert!(got.has_state(AccessibleState::Busy));
    assert!(got.supports_action(AccessibleAction::Invoke));
    assert!(!got.supports_action(AccessibleAction::Expand));
    assert!(t.update(AccessibleNode::new(AccessibleId(2), AccessibleRole::Text, "x")).is_err());
}

#[test]
fn accessible_tree_from_widgets() {
    let mut root = sample_tree();
    root.has_focus = true;
    let t = AccessibleTree::from_widget(&root);
    assert_eq!(t.root(), Some(AccessibleId(1)));
    let r = t.node(AccessibleId(1)).unwrap();
    assert_eq!(r.name, "w1");
    assert!(r.has_state(AccessibleState::Focused));
    assert!(!r.has_state(AccessibleState::Focusable));
    assert_eq!(t.children(AccessibleId(1)).len(), 4);
    let hidden = t.node(AccessibleId(5)).unwrap();
    assert!(hidden.has_state(AccessibleState::Invisible));
    assert!(hidden.has_state(AccessibleState::Focusable));
    assert_eq!(t.parent(AccessibleId(6)), Some(AccessibleId(5)));
}

#[test]
fn size_policies() {
    assert!(Policy::Preferred.can_grow());
    assert!(Policy::Preferred.can_shrink());
    assert!(!Policy::Fixed.can_grow());
    assert!(!Policy::Minimum.can_shrink());
    assert!(Policy::MinimumExpanding.is_expanding());
    let p = QSizePolicy::new(Policy::Expanding, Policy::Fixed).with_stretch(2, 3);
    let t = transposed_policy(p);
    assert_eq!(t.horizontal, Policy::Fixed);
    assert_eq!(t.vertical, Policy::Expanding);
    assert_eq!((t.horizontal_stretch, t.vertical_stretch), (3, 2));
    assert_eq!(QSizePolicy::fixed().horizontal, Policy::Fixed);
    assert_eq!(QSizePolicy::default(), QSizePolicy::preferred());
}

#[test]
fn distribution_by_stretch() {
    let items = [(50, 0, 1000, Policy::Preferred, 1), (50, 0, 1000, Policy::Preferred, 3)];
    assert_eq!(distribute_1d_space(&items, 400), vec![100, 300]);
    let mixed = [(30, 10, 100, Policy::Fixed, 0), (50, 0, 1000, Policy::Preferred, 1)];
    assert_eq!(distribute_1d_space(&mixed, 200), vec![30, 170]);
    let thirds = [(0, 0, 100, Policy::Preferred, 1); 3];
    assert_eq!(distribute_1d_space(&thirds, 100), vec![34, 33, 33]);
}

#[test]
fn distribution_grows_and_shrinks() {
    let grow = [(50, 0, 100, Policy::Preferred, 0), (50, 0, 1000, Policy::Expanding, 0)];
    assert_eq!(distribute_1d_space(&grow, 300), vec![50, 250]);
    let shrink = [(100, 20, 200, Policy::Preferred, 0), (100, 50, 200, Policy::Fixed, 0)];
    assert_eq!(distribute_1d_space(&shrink, 150), vec![50, 100]);
    let even = [(100, 0, 200, Policy::Preferred, 0), (100, 0, 200, Policy::Preferred, 0)];
    assert_eq!(distribute_1d_space(&even, 151), vec![75, 76]);
    assert!(distribute_1d_space(&[], 10).is_empty());
    let fixed = [(40, 0, 100, Policy::Fixed, 0)];
    assert_eq!(distribute_1d_space(&fixed, 500), vec![40]);
}

#[test]
fn slider_pixel_conversions() {
    assert_eq!(slider_position_from_value(0, 100, 50, 200, false), 100);
    assert_eq!(slider_position_from_value(0, 100, 25, 200, true), 150);
    assert_eq!(slider_position_from_value(0, 100, -5, 200, false), 0);
    assert_eq!(slider_position_from_value(0, 100, 500, 200, false), 200);
    assert_eq!(slider_position_from_value(5, 5, 5, 200, false), 0);
    assert_eq!(slider_value_from_position(0, 100, 100, 200, false), 50);
    assert_eq!(slider_value_from_position(0, 100, 100, 200, true), 50);
    assert_eq!(slider_value_from_position(0, 100, 0, 200, true), 100);
    assert_eq!(slider_value_from_position(0, 100, 250, 200, false), 100);
}

#[test]
fn slider_state_actions() {
    let mut s = SliderState::new(Orientation::Horizontal);
    assert_eq!((s.minimum(), s.maximum(), s.value()), (0, 99, 0));
    s.trigger_action(SliderAction::SingleStepAdd);
    assert_eq!(s.value(), 1);
    s.trigger_action(SliderAction::PageStepAdd);
    assert_eq!(s.value(), 11);
    s.trigger_action(SliderAction::ToMaximum);
    assert_eq!(s.value(), 99);
    s.set_value(150);
    assert_eq!(s.value(), 99);
    s.set_range(10, 20);
    assert_eq!(s.value(), 20);
    s.set_value(-3);
    assert_eq!(s.value(), 10);
    s.set_wrapping(true);
    s.set_value(21);
    assert_eq!(s.value(), 11);
    let _ = s.take_notices();
    assert!(s.notices().is_empty());
}

#[test]
fn snapshot_copies_every_widget_and_child_list() {
    let root = node(
        1,
        FocusPolicy::NoFocus,
        vec![
            node(2, FocusPolicy::NoFocus, vec![node(4, FocusPolicy::NoFocus, vec![]), node(5, FocusPolicy::NoFocus, vec![])]),
            node(3, FocusPolicy::NoFocus, vec![]),
        ],
    );
    let t = AccessibleTree::from_widget(&root);
    assert_eq!(t.children(AccessibleId(1)), &[AccessibleId(2), AccessibleId(3)]);
    assert_eq!(t.children(AccessibleId(2)), &[AccessibleId(4), AccessibleId(5)]);
    assert!(t.children(AccessibleId(3)).is_empty());
    assert_eq!(t.parent(AccessibleId(4)), Some(AccessibleId(2)));
    assert_eq!(t.parent(AccessibleId(3)), Some(AccessibleId(1)));
    assert_eq!(t.parent(AccessibleId(1)), None);
    for id in 1..=5u64 {
        assert_eq!(t.node(AccessibleId(id)).unwrap().name, format!("w{}", id));
    }
    assert!(t.node(AccessibleId(6)).is_none());
}

#[test]
fn snapshot_keeps_first_widget_of_a_repeated_id() {
    // The second widget with id 2 is skipped together with its child 7.
    let root = node(
        1,
        FocusPolicy::NoFocus,
        vec![
            node(2, FocusPolicy::NoFocus, vec![]),
            node(3, FocusPolicy::NoFocus, vec![]),
            node(2, FocusPolicy::StrongFocus, vec![node(7, FocusPolicy::NoFocus, vec![])]),
        ],
    );
    let t = AccessibleTree::from_widget(&root);
    assert_eq!(t.children(AccessibleId(1)), &[AccessibleId(2), AccessibleId(3)]);
    assert!(!t.node(AccessibleId(2)).unwrap().has_state(AccessibleState::Focusable));
    assert!(t.node(AccessibleId(7)).is_none());
}

#[test]
fn slider_value_position_round_trip() {
    for &(min, max, span) in &[(0, 10, 20), (-5, 5, 10), (3, 7, 100), (0, 1, 1)] {
        for v in min..=max {
            for &up in &[false, true] {
                let pos = slider_position_from_value(min, max, v, span, up);
                assert_eq!(slider_value_from_position(min, max, pos, span, up), v);
            }
        }
    }
    // With fewer pixels than values, neighbouring values share a pixel.
    assert_eq!(slider_position_from_value(0, 10, 3, 1, false), 0);
    assert_eq!(slider_value_from_position(0, 10, 0, 1, false), 0);
}
