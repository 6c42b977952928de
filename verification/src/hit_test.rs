//! Finding the widget under a point: the topmost visible widget whose
//! geometry contains it, with the point in that widget's coordinates; and
//! routing window events through a widget tree (`EventTreeDispatcher`):
//! which widget receives an event, at which point, and what hover, focus
//! and popup state follows. Delivering the event to that widget is the
//! caller's part.

use vstd::prelude::*;

use crate::focus::{
    FocusManager, click_target, find_node, find_widget_by_id, focus_after, focus_changes,
    next_in_order, previous_in_order, subtree_has, tab_order,
};
use crate::geometry::{Point, Rect};
use crate::popup::{PopupManager, PopupView};
use crate::widget_node::WidgetNode;

verus! {

/// The point `p` in the coordinates of a child placed at `g`.
pub open spec fn to_child(p: Point, g: Rect) -> Point {
    Point { x: (p.x - g.x) as i32, y: (p.y - g.y) as i32 }
}

/// The widget of `w`'s subtree under `p` (given in `w`'s coordinates) and the
/// point in its coordinates: none when `w` is hidden or `p` lies outside it;
/// otherwise the hit among its children, or `w` itself.
pub open spec fn hit(w: WidgetNode, p: Point) -> Option<(u64, Point)>
    decreases w, 0nat,
{
    if !w.visible || !(Rect { x: 0, y: 0, width: w.geometry.width, height: w.geometry.height }).spec_contains(p) {
        None
    } else {
        match hit_list(w.children@, p) {
            Some(t) => Some(t),
            None => Some((w.id, p)),
        }
    }
}

/// The hit among sibling widgets: the last (topmost) visible one whose
/// geometry contains `p` decides, and its subtree is searched.
pub open spec fn hit_list(ws: Seq<WidgetNode>, p: Point) -> Option<(u64, Point)>
    decreases ws, 1nat,
{
    if ws.len() == 0 {
        None
    } else {
        let c = ws.last();
        if c.visible && c.geometry.spec_contains(p) {
            let lp = to_child(p, c.geometry);
            match hit(c, lp) {
                Some(t) => Some(t),
                None => Some((c.id, lp)),
            }
        } else {
            hit_list(ws.drop_last(), p)
        }
    }
}

/// The widget under `local_pos` (in `root`'s coordinates) and the point in
/// its own coordinates, or `None` when `root` is hidden or does not contain it.
pub fn hit_test(root: &WidgetNode, local_pos: Point) -> (r: Option<(u64, Point)>)
    ensures
        r == hit(*root, local_pos),
    decreases root,
{
    if !root.visible {
        return None;
    }
    let local_rect = Rect::new(0, 0, root.geometry.width, root.geometry.height);
    if !local_rect.contains(local_pos) {
        return None;
    }
    let n = root.children.len();
    let mut i: usize = n;
    assert(root.children@.subrange(0, n as int) =~= root.children@);
    while i > 0
        invariant
            0 <= i <= n == root.children@.len(),
            root.visible,
            (Rect { x: 0, y: 0, width: root.geometry.width, height: root.geometry.height }).spec_contains(local_pos),
            hit_list(root.children@.subrange(0, i as int), local_pos) == hit_list(root.children@, local_pos),
        decreases i,
    {
        let c = &root.children[i - 1];
        proof {
            assert(decreases_to!(*root => root.children));
            assert(decreases_to!(root.children => root.children@));
            assert(decreases_to!(root.children@ => root.children@[i - 1]));
            let s = root.children@.subrange(0, i as int);
            assert(s.last() == root.children@[i - 1]);
            assert(s.drop_last() =~= root.children@.subrange(0, i - 1));
        }
        if c.visible && c.geometry.contains(local_pos) {
            let child_pos = Point::new(local_pos.x - c.geometry.x, local_pos.y - c.geometry.y);
            proof {
                let s = root.children@.subrange(0, i as int);
                assert(child_pos == to_child(local_pos, c.geometry));
                assert(hit_list(s, local_pos) == match hit(*c, child_pos) {
                    Some(t) => Some(t),
                    None => Some((c.id, child_pos)),
                });
                assert(hit(*root, local_pos) == match hit_list(root.children@, local_pos) {
                    Some(t) => Some(t),
                    None => Some((root.id, local_pos)),
                });
            }
            match hit_test(c, child_pos) {
                Some(t) => {
                    return Some(t);
                },
                None => {
                    return Some((c.id, child_pos));
                },
            }
        }
        i = i - 1;
    }
    Some((root.id, local_pos))
}


/// A window event as the dispatcher reads it (positions in window
/// coordinates, hover positions already rounded to whole pixels).
#[derive(Debug, Clone, Copy, PartialEq, Eq, Structural)]
pub enum TreeEvent {
    MouseMove { x: i32, y: i32 },
    MouseButtonPress { x: i32, y: i32, button: u32 },
    MouseButtonRelease { x: i32, y: i32, button: u32 },
    MouseButtonDblClick { x: i32, y: i32, button: u32 },
    ContextMenu { x: i32, y: i32 },
    Wheel { x: i32, y: i32 },
    HoverMove { x: i32, y: i32 },
    HoverEnter { x: i32, y: i32 },
    HoverLeave,
    Resize { width: i32, height: i32 },
    FocusIn { active_window: bool },
    FocusOut,
    KeyPress { key: u32, modifiers: u32 },
    KeyRelease,
    InputMethod,
    Other,
}

/// Where an event goes.
#[derive(Debug, Clone, Copy, PartialEq, Eq, Structural)]
pub enum Route {
    /// Nobody receives it; the dispatch answers `false`.
    Unhandled,
    /// Focus navigation used it; the dispatch answers `true`.
    Consumed,
    /// The widget receives it at the point, in its own coordinates; its
    /// answer is the dispatch's.
    Deliver(u64, Point),
    /// The widget hovered last receives it.
    DeliverHovered(u64),
    /// The root takes the size (width, height) and receives it.
    ResizeRoot(i32, i32),
    /// The focused widget, when the tree holds one, receives it first; if it
    /// does not accept it, the root does.
    FocusedThenRoot(Option<u64>),
    /// The focused widget, when the tree holds one, and then the root
    /// receive it; the root's answer counts.
    FocusedAndRoot(Option<u64>),
}

/// The outcome of dispatching one event: the popup closed by a press
/// outside it (to hide), the widget the pointer left and the one it entered
/// (with the point in its coordinates), and the event's route.
#[derive(Debug, Clone, Copy, PartialEq, Eq)]
pub struct Dispatch {
    pub dismissed_popup: Option<u64>,
    pub leave: Option<u64>,
    pub enter: Option<(u64, Point)>,
    pub route: Route,
}

/// The dispatcher's state as plain values.
pub struct DispatcherView {
    pub last_hovered: Option<u64>,
    pub focused: Option<u64>,
    pub popup: PopupView,
}

/// A route with nothing else happening.
pub open spec fn only(route: Route) -> Dispatch {
    Dispatch { dismissed_popup: None, leave: None, enter: None, route }
}

/// The focused widget when the tree holds it.
pub open spec fn focused_in_tree(root: WidgetNode, f: Option<u64>) -> Option<u64> {
    match f {
        Some(x) => if subtree_has(root, x) {
            Some(x)
        } else {
            None
        },
        None => None,
    }
}

/// Focus after a click on `hit`: the nearest widget from it upwards that
/// takes click focus, if any.
pub open spec fn focus_after_click(root: WidgetNode, f: Option<u64>, hit: u64) -> Option<u64> {
    match click_target(root, hit, None) {
        Some(Some(t)) => focus_after(root, f, Some(t)),
        _ => f,
    }
}

/// Tab (`forward`) or Shift+Tab: whether focus moved, and the focus after.
pub open spec fn focus_after_tab(root: WidgetNode, f: Option<u64>, forward: bool) -> (bool, Option<u64>) {
    let order = tab_order(root);
    if order.len() == 0 {
        (false, f)
    } else {
        let t = Some(
            if forward {
                next_in_order(order, f)
            } else {
                previous_in_order(order, f)
            },
        );
        (focus_changes(root, f, t), focus_after(root, f, t))
    }
}

/// The grabbing widget `g` receives a press or release at `p` made relative
/// to its geometry, when the tree holds it.
pub open spec fn grab_point(root: WidgetNode, g: u64, p: Point) -> Option<Point> {
    match find_node(root, g) {
        Some(n) => Some(Point { x: (p.x - n.geometry.x) as i32, y: (p.y - n.geometry.y) as i32 }),
        None => None,
    }
}

/// The widget under `p` receives the event there; none, nobody.
pub open spec fn route_to_hit(root: WidgetNode, p: Point) -> Route {
    match hit(root, p) {
        Some((t, lp)) => Route::Deliver(t, lp),
        None => Route::Unhandled,
    }
}

/// The popup state after a press at `p`: an auto-dismissing popup closes
/// when the press lies outside it (reported as the second value).
pub open spec fn popup_after_press(v: PopupView, p: Point) -> (PopupView, Option<u64>) {
    match v.active_popup {
        Some(pp) => if !pp.geometry.spec_contains(p) && v.auto_dismiss {
            (PopupView { active_popup: None, mouse_grabber: None, ..v }, Some(pp.id))
        } else {
            (v, None)
        },
        None => (v, None),
    }
}

/// How one event is routed and what state follows (`dispatch_event`).
pub open spec fn spec_dispatch(v: DispatcherView, root: WidgetNode, ev: TreeEvent) -> (DispatcherView, Dispatch) {
    match ev {
        TreeEvent::MouseMove { x, y } => {
            let p = Point { x, y };
            match hit(root, p) {
                Some((t, lp)) => {
                    let changed = v.last_hovered != Some(t);
                    (
                        DispatcherView { last_hovered: Some(t), ..v },
                        Dispatch {
                            dismissed_popup: None,
                            leave: if changed {
                                v.last_hovered
                            } else {
                                None
                            },
                            enter: if changed {
                                Some((t, lp))
                            } else {
                                None
                            },
                            route: Route::Deliver(t, lp),
                        },
                    )
                },
                None => (
                    DispatcherView { last_hovered: None, ..v },
                    Dispatch { dismissed_popup: None, leave: v.last_hovered, enter: None, route: Route::Unhandled },
                ),
            }
        },
        TreeEvent::MouseButtonPress { x, y, button } => {
            let p = Point { x, y };
            let (popup, dismissed) = popup_after_press(v.popup, p);
            let v1 = DispatcherView { popup, ..v };
            let grabbed = match popup.mouse_grabber {
                Some(g) => match grab_point(root, g, p) {
                    Some(gp) => Some(Route::Deliver(g, gp)),
                    None => None,
                },
                None => None,
            };
            match grabbed {
                Some(r) => (v1, Dispatch { dismissed_popup: dismissed, leave: None, enter: None, route: r }),
                None => match hit(root, p) {
                    Some((t, lp)) => (
                        DispatcherView {
                            focused: if button == 1 {
                                focus_after_click(root, v.focused, t)
                            } else {
                                v.focused
                            },
                            ..v1
                        },
                        Dispatch {
                            dismissed_popup: dismissed,
                            leave: None,
                            enter: None,
                            route: Route::Deliver(t, lp),
                        },
                    ),
                    None => (v1, Dispatch { dismissed_popup: dismissed, leave: None, enter: None, route: Route::Unhandled }),
                },
            }
        },
        TreeEvent::MouseButtonRelease { x, y, button } => {
            let p = Point { x, y };
            let grabbed = match v.popup.mouse_grabber {
                Some(g) => match grab_point(root, g, p) {
                    Some(gp) => Some(Route::Deliver(g, gp)),
                    None => None,
                },
                None => None,
            };
            match grabbed {
                Some(r) => (v, only(r)),
                None => (v, only(route_to_hit(root, p))),
            }
        },
        TreeEvent::MouseButtonDblClick { x, y, button } => (v, only(route_to_hit(root, Point { x, y }))),
        TreeEvent::ContextMenu { x, y } => (v, only(route_to_hit(root, Point { x, y }))),
        TreeEvent::Wheel { x, y } => (v, only(route_to_hit(root, Point { x, y }))),
        TreeEvent::HoverMove { x, y } => (v, only(route_to_hit(root, Point { x, y }))),
        TreeEvent::HoverEnter { x, y } => (v, only(route_to_hit(root, Point { x, y }))),
        TreeEvent::HoverLeave => (
            v,
            only(
                match v.last_hovered {
                    Some(h) => Route::DeliverHovered(h),
                    None => Route::Unhandled,
                },
            ),
        ),
        TreeEvent::Resize { width, height } => (v, only(Route::ResizeRoot(width, height))),
        TreeEvent::FocusIn { active_window } => {
            if v.focused is Some {
                (v, only(Route::FocusedAndRoot(focused_in_tree(root, v.focused))))
            } else if active_window {
                let (_, f) = focus_after_tab(root, v.focused, true);
                (DispatcherView { focused: f, ..v }, only(Route::FocusedAndRoot(None)))
            } else {
                (v, only(Route::FocusedAndRoot(None)))
            }
        },
        TreeEvent::FocusOut => (v, only(Route::FocusedAndRoot(focused_in_tree(root, v.focused)))),
        TreeEvent::KeyPress { key, modifiers } => {
            if key == 0x09 || key == 0x0100_0001 {
                let shift = modifiers & 0x0200_0000 != 0 || modifiers & 1 != 0;
                let (moved, f) = focus_after_tab(root, v.focused, !shift);
                let v1 = DispatcherView { focused: f, ..v };
                if moved {
                    (v1, only(Route::Consumed))
                } else {
                    (v1, only(Route::FocusedThenRoot(focused_in_tree(root, f))))
                }
            } else {
                (v, only(Route::FocusedThenRoot(focused_in_tree(root, v.focused))))
            }
        },
        TreeEvent::KeyRelease => (v, only(Route::FocusedThenRoot(focused_in_tree(root, v.focused)))),
        TreeEvent::InputMethod => (v, only(Route::FocusedThenRoot(focused_in_tree(root, v.focused)))),
        TreeEvent::Other => (v, only(Route::Unhandled)),
    }
}


/// The pointer enters a widget once: after a move onto it, further moves
/// over the same widget report neither a leave nor an enter.
pub proof fn lemma_hover_enter_once(v: DispatcherView, root: WidgetNode, x1: i32, y1: i32, x2: i32, y2: i32)
    requires
        hit(root, Point { x: x1, y: y1 }) matches Some(a) && hit(root, Point { x: x2, y: y2 }) matches Some(
            b,
        ) && a.0 == b.0,
    ensures
        ({
            let (v1, _) = spec_dispatch(v, root, TreeEvent::MouseMove { x: x1, y: y1 });
            let (_, d) = spec_dispatch(v1, root, TreeEvent::MouseMove { x: x2, y: y2 });
            d.leave is None && d.enter is None
        }),
{
}

/// A move over a widget makes it the hovered one and delivers the move to
/// it at the point in its coordinates.
pub proof fn lemma_move_hovers_hit(v: DispatcherView, root: WidgetNode, x: i32, y: i32)
    requires
        hit(root, Point { x, y }) matches Some(a),
    ensures
        ({
            let (v1, d) = spec_dispatch(v, root, TreeEvent::MouseMove { x, y });
            let t = hit(root, Point { x, y }).unwrap();
            &&& v1.last_hovered == Some(t.0)
            &&& d.route == Route::Deliver(t.0, t.1)
        }),
{
}

/// Routes window events through a widget tree, tracking the hovered
/// widget, keyboard focus and the open popup.
pub struct EventTreeDispatcher {
    last_hovered: Option<u64>,
    focus_manager: FocusManager,
    popup_manager: PopupManager,
}

impl View for EventTreeDispatcher {
    type V = DispatcherView;

    closed spec fn view(&self) -> DispatcherView {
        DispatcherView {
            last_hovered: self.last_hovered,
            focused: self.focus_manager.spec_focused(),
            popup: self.popup_manager@,
        }
    }
}

impl EventTreeDispatcher {
    /// Nothing hovered or focused; no popup, and popups dismiss themselves.
    pub fn new() -> (r: Self)
        ensures
            r@ == (DispatcherView {
                last_hovered: None,
                focused: None,
                popup: PopupView { active_popup: None, mouse_grabber: None, auto_dismiss: true },
            }),
    {
        EventTreeDispatcher { last_hovered: None, focus_manager: FocusManager::new(), popup_manager: PopupManager::new() }
    }

    /// The popup manager.
    pub closed spec fn spec_popup_manager(&self) -> &PopupManager {
        &self.popup_manager
    }

    /// The focus manager.
    pub closed spec fn spec_focus_manager(&self) -> &FocusManager {
        &self.focus_manager
    }

    pub fn popup_manager(&self) -> (r: &PopupManager)
        ensures
            r == self.spec_popup_manager(),
            r@ == self@.popup,
    {
        &self.popup_manager
    }

    /// The popup manager, to open and close popups.
    pub fn popup_manager_mut(&mut self) -> (r: &mut PopupManager)
        ensures
            *r == *old(self).spec_popup_manager(),
            final(self)@ == (DispatcherView { popup: final(r)@, ..old(self)@ }),
    {
        &mut self.popup_manager
    }

    pub fn focus_manager(&self) -> (r: &FocusManager)
        ensures
            r == self.spec_focus_manager(),
            r.spec_focused() == self@.focused,
    {
        &self.focus_manager
    }

    /// The focus manager, to move focus.
    pub fn focus_manager_mut(&mut self) -> (r: &mut FocusManager)
        ensures
            *r == *old(self).spec_focus_manager(),
            final(self)@ == (DispatcherView { focused: final(r).spec_focused(), ..old(self)@ }),
    {
        &mut self.focus_manager
    }

    /// The pointer left the window: the widget hovered last, if any, is to
    /// receive a leave event, and nothing is hovered.
    pub fn handle_mouse_leave(&mut self) -> (r: Option<u64>)
        ensures
            r == old(self)@.last_hovered,
            final(self)@ == (DispatcherView { last_hovered: None, ..old(self)@ }),
    {
        let r = self.last_hovered;
        self.last_hovered = None;
        r
    }

    fn grab_route(&self, root: &WidgetNode, p: Point) -> (r: Option<Route>)
        ensures
            r == match self@.popup.mouse_grabber {
                Some(g) => match grab_point(*root, g, p) {
                    Some(gp) => Some(Route::Deliver(g, gp)),
                    None => None,
                },
                None => None,
            },
    {
        match self.popup_manager.mouse_grabber() {
            Some(g) => match find_widget_by_id(root, g) {
                Some(n) => {
                    let x = (p.x as i64 - n.geometry.x as i64) as i32;
                    let y = (p.y as i64 - n.geometry.y as i64) as i32;
                    Some(Route::Deliver(g, Point { x, y }))
                },
                None => None,
            },
            None => None,
        }
    }

    fn hit_route(root: &WidgetNode, p: Point) -> (r: Route)
        ensures
            r == route_to_hit(*root, p),
    {
        match hit_test(root, p) {
            Some((t, lp)) => Route::Deliver(t, lp),
            None => Route::Unhandled,
        }
    }

    fn focused_found(&self, root: &WidgetNode) -> (r: Option<u64>)
        ensures
            r == focused_in_tree(*root, self@.focused),
    {
        match self.focus_manager.focused_widget_id() {
            Some(f) => if find_widget_by_id(root, f).is_some() {
                Some(f)
            } else {
                None
            },
            None => None,
        }
    }

    fn dispatch_move(&mut self, root: &WidgetNode, x: i32, y: i32) -> (r: Dispatch)
        ensures
            (final(self)@, r) == spec_dispatch(old(self)@, *root, TreeEvent::MouseMove { x, y }),
    {
        let p = Point { x, y };
        match hit_test(root, p) {
            Some((t, lp)) => {
                let changed = self.last_hovered != Some(t);
                let leave = if changed {
                    self.last_hovered
                } else {
                    None
                };
                let enter = if changed {
                    Some((t, lp))
                } else {
                    None
                };
                self.last_hovered = Some(t);
                Dispatch { dismissed_popup: None, leave, enter, route: Route::Deliver(t, lp) }
            },
            None => {
                let leave = self.handle_mouse_leave();
                Dispatch { dismissed_popup: None, leave, enter: None, route: Route::Unhandled }
            },
        }
    }

    fn dispatch_press(&mut self, root: &WidgetNode, x: i32, y: i32, button: u32) -> (r: Dispatch)
        ensures
            (final(self)@, r) == spec_dispatch(old(self)@, *root, TreeEvent::MouseButtonPress { x, y, button }),
    {
        let p = Point { x, y };
        let dismissed = self.popup_manager.handle_mouse_press(p);
        match self.grab_route(root, p) {
            Some(r) => {
                return Dispatch { dismissed_popup: dismissed, leave: None, enter: None, route: r };
            },
            None => {},
        }
        match hit_test(root, p) {
            Some((t, lp)) => {
                if button == 1 {
                    self.focus_manager.handle_mouse_click(root, t);
                }
                Dispatch { dismissed_popup: dismissed, leave: None, enter: None, route: Route::Deliver(t, lp) }
            },
            None => Dispatch { dismissed_popup: dismissed, leave: None, enter: None, route: Route::Unhandled },
        }
    }

    fn tab(&mut self, root: &WidgetNode, forward: bool) -> (moved: bool)
        ensures
            (moved, final(self)@.focused) == focus_after_tab(*root, old(self)@.focused, forward),
            final(self)@ == (DispatcherView { focused: final(self)@.focused, ..old(self)@ }),
    {
        if forward {
            self.focus_manager.focus_next(root)
        } else {
            self.focus_manager.focus_previous(root)
        }
    }

    /// Routes `ev` through the tree under `root` ([`spec_dispatch`]).
    pub fn dispatch_event(&mut self, root: &WidgetNode, ev: TreeEvent) -> (r: Dispatch)
        ensures
            (final(self)@, r) == spec_dispatch(old(self)@, *root, ev),
    {
        match ev {
            TreeEvent::MouseMove { x, y } => self.dispatch_move(root, x, y),
            TreeEvent::MouseButtonPress { x, y, button } => self.dispatch_press(root, x, y, button),
            TreeEvent::MouseButtonRelease { x, y, button } => {
                let p = Point { x, y };
                match self.grab_route(root, p) {
                    Some(r) => Dispatch { dismissed_popup: None, leave: None, enter: None, route: r },
                    None => Dispatch {
                        dismissed_popup: None,
                        leave: None,
                        enter: None,
                        route: Self::hit_route(root, p),
                    },
                }
            },
            TreeEvent::MouseButtonDblClick { x, y, button } => Dispatch {
                dismissed_popup: None,
                leave: None,
                enter: None,
                route: Self::hit_route(root, Point { x, y }),
            },
            TreeEvent::ContextMenu { x, y } => Dispatch {
                dismissed_popup: None,
                leave: None,
                enter: None,
                route: Self::hit_route(root, Point { x, y }),
            },
            TreeEvent::Wheel { x, y } => Dispatch {
                dismissed_popup: None,
                leave: None,
                enter: None,
                route: Self::hit_route(root, Point { x, y }),
            },
            TreeEvent::HoverMove { x, y } => Dispatch {
                dismissed_popup: None,
                leave: None,
                enter: None,
                route: Self::hit_route(root, Point { x, y }),
            },
            TreeEvent::HoverEnter { x, y } => Dispatch {
                dismissed_popup: None,
                leave: None,
                enter: None,
                route: Self::hit_route(root, Point { x, y }),
            },
            TreeEvent::HoverLeave => Dispatch {
                dismissed_popup: None,
                leave: None,
                enter: None,
                route: match self.last_hovered {
                    Some(h) => Route::DeliverHovered(h),
                    None => Route::Unhandled,
                },
            },
            TreeEvent::Resize { width, height } => Dispatch {
                dismissed_popup: None,
                leave: None,
                enter: None,
                route: Route::ResizeRoot(width, height),
            },
            TreeEvent::FocusIn { active_window } => {
                if self.focus_manager.focused_widget_id().is_some() {
                    let f = self.focused_found(root);
                    Dispatch { dismissed_popup: None, leave: None, enter: None, route: Route::FocusedAndRoot(f) }
                } else {
                    if active_window {
                        self.tab(root, true);
                    }
                    Dispatch { dismissed_popup: None, leave: None, enter: None, route: Route::FocusedAndRoot(None) }
                }
            },
            TreeEvent::FocusOut => {
                let f = self.focused_found(root);
                Dispatch { dismissed_popup: None, leave: None, enter: None, route: Route::FocusedAndRoot(f) }
            },
            TreeEvent::KeyPress { key, modifiers } => {
                if key == 0x09 || key == 0x0100_0001 {
                    let shift = modifiers & 0x0200_0000 != 0 || modifiers & 1 != 0;
                    if self.tab(root, !shift) {
                        return Dispatch { dismissed_popup: None, leave: None, enter: None, route: Route::Consumed };
                    }
                }
                let f = self.focused_found(root);
                Dispatch { dismissed_popup: None, leave: None, enter: None, route: Route::FocusedThenRoot(f) }
            },
            TreeEvent::KeyRelease => {
                let f = self.focused_found(root);
                Dispatch { dismissed_popup: None, leave: None, enter: None, route: Route::FocusedThenRoot(f) }
            },
            TreeEvent::InputMethod => {
                let f = self.focused_found(root);
                Dispatch { dismissed_popup: None, leave: None, enter: None, route: Route::FocusedThenRoot(f) }
            },
            TreeEvent::Other => Dispatch { dismissed_popup: None, leave: None, enter: None, route: Route::Unhandled },
        }
    }
}

/// Routes one event with a fresh dispatcher (`dispatch_event_to_tree`).
pub fn dispatch_event_to_tree(root: &WidgetNode, ev: TreeEvent) -> (r: Dispatch)
    ensures
        r == spec_dispatch(
            DispatcherView {
                last_hovered: None,
                focused: None,
                popup: PopupView { active_popup: None, mouse_grabber: None, auto_dismiss: true },
            },
            *root,
            ev,
        ).1,
{
    let mut d = EventTreeDispatcher::new();
    d.dispatch_event(root, ev)
}

} // verus!
