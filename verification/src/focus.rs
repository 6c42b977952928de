use vstd::prelude::*;

use crate::widget_node::WidgetNode;

verus! {

/// Focus policy defining how a widget accepts keyboard focus (`Qt::FocusPolicy`).
#[derive(Debug, Clone, Copy, PartialEq, Eq, Structural)]
pub enum FocusPolicy {
    /// Widget does not accept keyboard focus at all.
    NoFocus,
    /// Widget accepts focus only via Tab key navigation.
    TabFocus,
    /// Widget accepts focus only by clicking with mouse.
    ClickFocus,
    /// Widget accepts focus by both Tab navigation and mouse click (`TabFocus | ClickFocus`).
    StrongFocus,
    /// Widget accepts focus by Tab, mouse click, and mouse wheel.
    WheelFocus,
}

impl FocusPolicy {
    /// Whether Tab navigation may focus a widget with this policy.
    pub open spec fn spec_accepts_tab(&self) -> bool {
        *self is TabFocus || *self is StrongFocus || *self is WheelFocus
    }

    /// Whether a mouse click may focus a widget with this policy.
    pub open spec fn spec_accepts_click(&self) -> bool {
        *self is ClickFocus || *self is StrongFocus || *self is WheelFocus
    }

    /// Returns true if the policy permits Tab navigation focus.
    #[verifier::when_used_as_spec(spec_accepts_tab)]
    pub fn accepts_tab(&self) -> (r: bool)
        ensures
            r == self.spec_accepts_tab(),
    {
        match self {
            FocusPolicy::TabFocus | FocusPolicy::StrongFocus | FocusPolicy::WheelFocus => true,
            _ => false,
        }
    }

    /// Returns true if the policy permits mouse click focus.
    #[verifier::when_used_as_spec(spec_accepts_click)]
    pub fn accepts_click(&self) -> (r: bool)
        ensures
            r == self.spec_accepts_click(),
    {
        match self {
            FocusPolicy::ClickFocus | FocusPolicy::StrongFocus | FocusPolicy::WheelFocus => true,
            _ => false,
        }
    }
}

impl Default for FocusPolicy {
    fn default() -> (r: FocusPolicy)
        ensures
            r == FocusPolicy::NoFocus,
    {
        FocusPolicy::NoFocus
    }
}

/// Identifiers of the widgets of `w`'s subtree that Tab navigation visits, in
/// pre-order; hidden or disabled widgets are skipped together with their subtrees.
pub open spec fn tab_order(w: WidgetNode) -> Seq<u64>
    decreases w, 0nat,
{
    if !w.visible || !w.enabled {
        Seq::empty()
    } else {
        let own = if w.focus_policy.spec_accepts_tab() {
            seq![w.id]
        } else {
            Seq::empty()
        };
        own + tab_order_list(w.children@)
    }
}

/// The Tab order of a list of sibling subtrees, one after the other.
pub open spec fn tab_order_list(ws: Seq<WidgetNode>) -> Seq<u64>
    decreases ws, 1nat,
{
    if ws.len() == 0 {
        Seq::empty()
    } else {
        tab_order_list(ws.drop_last()) + tab_order(ws.last())
    }
}

/// `id` names a widget of the subtree of `w` (`w` included).
pub open spec fn subtree_has(w: WidgetNode, id: u64) -> bool
    decreases w, 0nat,
{
    w.id == id || list_has(w.children@, id)
}

/// `id` names a widget in one of the subtrees `ws`.
pub open spec fn list_has(ws: Seq<WidgetNode>, id: u64) -> bool
    decreases ws, 1nat,
{
    if ws.len() == 0 {
        false
    } else {
        list_has(ws.drop_last(), id) || subtree_has(ws.last(), id)
    }
}

/// The first widget of `w`'s subtree, in pre-order, whose identifier is `id`.
pub open spec fn find_node(w: WidgetNode, id: u64) -> Option<WidgetNode>
    decreases w, 0nat,
{
    if w.id == id {
        Some(w)
    } else {
        find_node_list(w.children@, id)
    }
}

/// The first widget with identifier `id` in the sibling subtrees `ws`, in order.
pub open spec fn find_node_list(ws: Seq<WidgetNode>, id: u64) -> Option<WidgetNode>
    decreases ws, 1nat,
{
    if ws.len() == 0 {
        None
    } else {
        match find_node_list(ws.drop_last(), id) {
            Some(n) => Some(n),
            None => find_node(ws.last(), id),
        }
    }
}

/// A widget is found exactly when the subtree holds its identifier, and the
/// one found carries it.
pub proof fn lemma_find_node_has(w: WidgetNode, id: u64)
    ensures
        find_node(w, id) is Some <==> subtree_has(w, id),
        find_node(w, id) matches Some(n) ==> n.id == id,
    decreases w, 0nat,
{
    if w.id != id {
        lemma_find_node_list_has(w.children@, id);
    }
}

proof fn lemma_find_node_list_has(ws: Seq<WidgetNode>, id: u64)
    ensures
        find_node_list(ws, id) is Some <==> list_has(ws, id),
        find_node_list(ws, id) matches Some(n) ==> n.id == id,
    decreases ws, 1nat,
{
    if ws.len() > 0 {
        lemma_find_node_list_has(ws.drop_last(), id);
        lemma_find_node_has(ws.last(), id);
    }
}

/// A widget found among a prefix of the siblings is the one found among all of them.
proof fn lemma_find_list_prefix(ws: Seq<WidgetNode>, n: int, id: u64)
    requires
        0 <= n <= ws.len(),
        find_node_list(ws.subrange(0, n), id) is Some,
    ensures
        find_node_list(ws, id) == find_node_list(ws.subrange(0, n), id),
    decreases ws.len() - n,
{
    if n < ws.len() {
        let s = ws.subrange(0, n + 1);
        assert(s.drop_last() =~= ws.subrange(0, n));
        lemma_find_list_prefix(ws, n + 1, id);
    } else {
        assert(ws.subrange(0, n) =~= ws);
    }
}

/// Recursively finds a widget by its identifier in the widget tree, in pre-order.
pub fn find_widget_by_id(root: &WidgetNode, id: u64) -> (r: Option<&WidgetNode>)
    ensures
        r matches Some(n) ==> n.id == id,
        r is Some <==> subtree_has(*root, id),
        match r {
            Some(n) => find_node(*root, id) == Some(*n),
            None => find_node(*root, id) is None,
        },
    decreases root,
{
    proof {
        lemma_find_node_has(*root, id);
    }
    if root.id == id {
        return Some(root);
    }
    let mut i: usize = 0;
    while i < root.children.len()
        invariant
            0 <= i <= root.children.len(),
            root.id != id,
            !list_has(root.children@.subrange(0, i as int), id),
            find_node_list(root.children@.subrange(0, i as int), id) is None,
        decreases root.children.len() - i,
    {
        proof {
            assert(decreases_to!(*root => root.children));
            assert(decreases_to!(root.children => root.children@));
            assert(decreases_to!(root.children@ => root.children@[i as int]));
            let s = root.children@.subrange(0, i as int + 1);
            assert(s.drop_last() =~= root.children@.subrange(0, i as int));
        }
        match find_widget_by_id(&root.children[i], id) {
            Some(found) => {
                proof {
                    let s = root.children@.subrange(0, i as int + 1);
                    assert(s.last() == root.children@[i as int]);
                    lemma_list_has_prefix(root.children@, i as int + 1, id);
                    lemma_find_list_prefix(root.children@, i as int + 1, id);
                }
                return Some(found);
            },
            None => {},
        }
        i = i + 1;
    }
    assert(root.children@.subrange(0, i as int) =~= root.children@);
    None
}

/// A widget found in a prefix of the siblings is found among all of them.
proof fn lemma_list_has_prefix(ws: Seq<WidgetNode>, n: int, id: u64)
    requires
        0 <= n <= ws.len(),
        list_has(ws.subrange(0, n), id),
    ensures
        list_has(ws, id),
    decreases ws.len() - n,
{
    if n < ws.len() {
        let s = ws.subrange(0, n + 1);
        assert(s.drop_last() =~= ws.subrange(0, n));
        lemma_list_has_prefix(ws, n + 1, id);
    } else {
        assert(ws.subrange(0, n) =~= ws);
    }
}

/// Appends to `out` the identifiers of all visible, enabled widgets accepting
/// Tab focus, in pre-order.
pub fn collect_tab_focusable(root: &WidgetNode, out: &mut Vec<u64>)
    ensures
        final(out)@ == old(out)@ + tab_order(*root),
    decreases root,
{
    if !root.visible || !root.enabled {
        assert(old(out)@ + tab_order(*root) =~= old(out)@);
        return;
    }
    let ghost start = out@;
    if root.focus_policy.accepts_tab() {
        out.push(root.id);
    }
    let ghost own = if root.focus_policy.spec_accepts_tab() {
        seq![root.id]
    } else {
        Seq::<u64>::empty()
    };
    assert(out@ =~= start + own);
    let mut i: usize = 0;
    while i < root.children.len()
        invariant
            0 <= i <= root.children.len(),
            out@ == start + own + tab_order_list(root.children@.subrange(0, i as int)),
        decreases root.children.len() - i,
    {
        proof {
            assert(decreases_to!(*root => root.children));
            assert(decreases_to!(root.children => root.children@));
            assert(decreases_to!(root.children@ => root.children@[i as int]));
        }
        collect_tab_focusable(&root.children[i], out);
        proof {
            let s = root.children@.subrange(0, i as int + 1);
            assert(s.drop_last() =~= root.children@.subrange(0, i as int));
            assert(s.last() == root.children@[i as int]);
            assert(out@ =~= start + own + tab_order_list(s));
        }
        i = i + 1;
    }
    assert(root.children@.subrange(0, i as int) =~= root.children@);
    assert(out@ =~= old(out)@ + tab_order(*root));
}

/// Every identifier in the Tab order names a widget of the subtree.
pub proof fn lemma_tab_order_in_subtree(w: WidgetNode, id: u64)
    requires
        tab_order(w).contains(id),
    ensures
        subtree_has(w, id),
    decreases w, 0nat,
{
    if w.visible && w.enabled {
        let own = if w.focus_policy.spec_accepts_tab() {
            seq![w.id]
        } else {
            Seq::<u64>::empty()
        };
        let rest = tab_order_list(w.children@);
        let j = choose|j: int| 0 <= j < tab_order(w).len() && tab_order(w)[j] == id;
        if j < own.len() {
            assert(own[j] == id);
        } else {
            assert(rest[j - own.len()] == id);
            lemma_tab_order_list_in_subtree(w.children@, id);
        }
    }
}

/// Every identifier in the Tab order of siblings names a widget among them.
pub proof fn lemma_tab_order_list_in_subtree(ws: Seq<WidgetNode>, id: u64)
    requires
        tab_order_list(ws).contains(id),
    ensures
        list_has(ws, id),
    decreases ws, 1nat,
{
    if ws.len() > 0 {
        let a = tab_order_list(ws.drop_last());
        let b = tab_order(ws.last());
        let j = choose|j: int| 0 <= j < (a + b).len() && (a + b)[j] == id;
        if j < a.len() {
            assert(a[j] == id);
            lemma_tab_order_list_in_subtree(ws.drop_last(), id);
        } else {
            assert(b[j - a.len()] == id);
            lemma_tab_order_in_subtree(ws.last(), id);
        }
    }
}

/// `id` names a widget of `w`'s subtree that accepts Tab focus and that is
/// visible and enabled, as is every widget on the way down to it from `w`.
pub open spec fn tab_reachable(w: WidgetNode, id: u64) -> bool
    decreases w, 0nat,
{
    &&& w.visible
    &&& w.enabled
    &&& ((w.id == id && w.focus_policy.spec_accepts_tab()) || tab_reachable_list(w.children@, id))
}

/// `id` is Tab-reachable in one of the sibling subtrees `ws`.
pub open spec fn tab_reachable_list(ws: Seq<WidgetNode>, id: u64) -> bool
    decreases ws, 1nat,
{
    if ws.len() == 0 {
        false
    } else {
        tab_reachable_list(ws.drop_last(), id) || tab_reachable(ws.last(), id)
    }
}

/// Tab navigation visits exactly the widgets that accept Tab focus and are
/// visible and enabled together with all their ancestors: no hidden or
/// disabled widget, and nothing under a hidden or disabled parent, is ever in
/// the Tab order, and every other widget accepting Tab focus is.
pub proof fn lemma_tab_order_only_reachable(w: WidgetNode, id: u64)
    ensures
        tab_order(w).contains(id) <==> tab_reachable(w, id),
    decreases w, 0nat,
{
    if w.visible && w.enabled {
        let own = if w.focus_policy.spec_accepts_tab() {
            seq![w.id]
        } else {
            Seq::<u64>::empty()
        };
        let rest = tab_order_list(w.children@);
        lemma_tab_order_list_only_reachable(w.children@, id);
        assert(tab_order(w) == own + rest);
        if tab_order(w).contains(id) {
            let j = choose|j: int| 0 <= j < tab_order(w).len() && tab_order(w)[j] == id;
            if j < own.len() {
                assert(own[j] == id);
            } else {
                assert(rest[j - own.len()] == id);
            }
        }
        if tab_reachable(w, id) {
            if w.id == id && w.focus_policy.spec_accepts_tab() {
                assert(tab_order(w)[0] == id);
            } else {
                let k = choose|k: int| 0 <= k < rest.len() && rest[k] == id;
                assert(tab_order(w)[own.len() + k] == id);
            }
        }
    }
}

/// Tab navigation among siblings visits exactly their Tab-reachable widgets.
pub proof fn lemma_tab_order_list_only_reachable(ws: Seq<WidgetNode>, id: u64)
    ensures
        tab_order_list(ws).contains(id) <==> tab_reachable_list(ws, id),
    decreases ws, 1nat,
{
    if ws.len() > 0 {
        let a = tab_order_list(ws.drop_last());
        let b = tab_order(ws.last());
        lemma_tab_order_list_only_reachable(ws.drop_last(), id);
        lemma_tab_order_only_reachable(ws.last(), id);
        assert(tab_order_list(ws) == a + b);
        if (a + b).contains(id) {
            let j = choose|j: int| 0 <= j < (a + b).len() && (a + b)[j] == id;
            if j < a.len() {
                assert(a[j] == id);
            } else {
                assert(b[j - a.len()] == id);
            }
        }
        if a.contains(id) {
            let k = choose|k: int| 0 <= k < a.len() && a[k] == id;
            assert((a + b)[k] == id);
        }
        if b.contains(id) {
            let k = choose|k: int| 0 <= k < b.len() && b[k] == id;
            assert((a + b)[a.len() + k] == id);
        }
    }
}

/// The first position of `x` in `s` (meaningful when `s` contains `x`).
pub open spec fn first_index(s: Seq<u64>, x: u64) -> int {
    choose|i: int| 0 <= i < s.len() && s[i] == x && forall|j: int| 0 <= j < i ==> s[j] != x
}

/// The widget Tab moves to: the one after the focused widget in the Tab order
/// (wrapping around), or the first one when nothing in the order has focus.
pub open spec fn next_in_order(order: Seq<u64>, focused: Option<u64>) -> u64 {
    match focused {
        Some(c) => if order.contains(c) {
            order[(first_index(order, c) + 1) % (order.len() as int)]
        } else {
            order[0]
        },
        None => order[0],
    }
}

/// The widget Shift+Tab moves to: the one before the focused widget in the Tab
/// order (wrapping around), or the last one when nothing in the order has focus.
pub open spec fn previous_in_order(order: Seq<u64>, focused: Option<u64>) -> u64 {
    match focused {
        Some(c) => if order.contains(c) {
            order[(first_index(order, c) + order.len() - 1) % (order.len() as int)]
        } else {
            order[order.len() - 1]
        },
        None => order[order.len() - 1],
    }
}

/// Where `set_focus(target)` leaves the focus, starting from `focused`.
pub open spec fn focus_after(root: WidgetNode, focused: Option<u64>, target: Option<u64>) -> Option<
    u64,
> {
    if focused == target {
        focused
    } else {
        match target {
            Some(t) => if subtree_has(root, t) {
                target
            } else {
                None
            },
            None => None,
        }
    }
}

/// Whether `set_focus(target)` reports a change, starting from `focused`.
pub open spec fn focus_changes(root: WidgetNode, focused: Option<u64>, target: Option<u64>) -> bool {
    focused != target && match target {
        Some(t) => subtree_has(root, t),
        None => true,
    }
}

/// Searches `s` for `x` from the front; `Some` carries the first position.
fn position_of(s: &Vec<u64>, x: u64) -> (r: Option<usize>)
    ensures
        r is Some <==> s@.contains(x),
        r matches Some(i) ==> i == first_index(s@, x) && i < s@.len() && s@[i as int] == x,
{
    let mut i: usize = 0;
    while i < s.len()
        invariant
            0 <= i <= s.len(),
            forall|j: int| 0 <= j < i ==> s@[j] != x,
        decreases s.len() - i,
    {
        if s[i] == x {
            proof {
                let c = first_index(s@, x);
                assert(0 <= c < s@.len() && s@[c] == x && forall|j: int| 0 <= j < c ==> s@[j] != x);
                if c < i {
                } else if c > i {
                    assert(s@[i as int] != x);
                }
            }
            return Some(i);
        }
        i = i + 1;
    }
    None
}


/// Where a click on widget `hit` sends the focus, searching the subtree of `w`
/// whose nearest click-focusable ancestor is `inherited`: `None` when `hit` is
/// not in the subtree, otherwise the nearest widget on the path from `hit` up
/// that accepts click focus (if any).
pub open spec fn click_target(w: WidgetNode, hit: u64, inherited: Option<u64>) -> Option<
    Option<u64>,
>
    decreases w, 0nat,
{
    let here = if w.focus_policy.spec_accepts_click() {
        Some(w.id)
    } else {
        inherited
    };
    if w.id == hit {
        Some(here)
    } else {
        click_target_list(w.children@, hit, here)
    }
}

/// The click target among sibling subtrees, the first subtree holding `hit` deciding.
pub open spec fn click_target_list(ws: Seq<WidgetNode>, hit: u64, inherited: Option<u64>) -> Option<
    Option<u64>,
>
    decreases ws, 1nat,
{
    if ws.len() == 0 {
        None
    } else {
        match click_target_list(ws.drop_last(), hit, inherited) {
            Some(t) => Some(t),
            None => click_target(ws.last(), hit, inherited),
        }
    }
}

/// Computes [`click_target`] for the subtree of `w`.
fn find_click_target(w: &WidgetNode, hit: u64, inherited: Option<u64>) -> (r: Option<Option<u64>>)
    ensures
        r == click_target(*w, hit, inherited),
    decreases w,
{
    let here = if w.focus_policy.accepts_click() {
        Some(w.id)
    } else {
        inherited
    };
    if w.id == hit {
        return Some(here);
    }
    let mut i: usize = 0;
    while i < w.children.len()
        invariant
            0 <= i <= w.children.len(),
            w.id != hit,
            here == (if w.focus_policy.spec_accepts_click() {
                Some(w.id)
            } else {
                inherited
            }),
            click_target_list(w.children@.subrange(0, i as int), hit, here) is None,
        decreases w.children.len() - i,
    {
        proof {
            assert(decreases_to!(*w => w.children));
            assert(decreases_to!(w.children => w.children@));
            assert(decreases_to!(w.children@ => w.children@[i as int]));
            let s = w.children@.subrange(0, i as int + 1);
            assert(s.drop_last() =~= w.children@.subrange(0, i as int));
            assert(s.last() == w.children@[i as int]);
        }
        let found = find_click_target(&w.children[i], hit, here);
        if found.is_some() {
            proof {
                lemma_click_list_prefix(w.children@, i as int + 1, hit, here);
            }
            return found;
        }
        i = i + 1;
    }
    assert(w.children@.subrange(0, i as int) =~= w.children@);
    None
}

/// Once a prefix of the siblings decides the click target, the whole list agrees.
proof fn lemma_click_list_prefix(ws: Seq<WidgetNode>, n: int, hit: u64, inherited: Option<u64>)
    requires
        0 <= n <= ws.len(),
        click_target_list(ws.subrange(0, n), hit, inherited) is Some,
    ensures
        click_target_list(ws, hit, inherited) == click_target_list(ws.subrange(0, n), hit, inherited),
    decreases ws.len() - n,
{
    if n < ws.len() {
        let s = ws.subrange(0, n + 1);
        assert(s.drop_last() =~= ws.subrange(0, n));
        lemma_click_list_prefix(ws, n + 1, hit, inherited);
    } else {
        assert(ws.subrange(0, n) =~= ws);
    }
}

/// Window-level focus manager tracking the currently focused widget and
/// deciding Tab / Shift+Tab navigation order and click focus.
pub struct FocusManager {
    focused: Option<u64>,
}

impl FocusManager {
    /// The identifier of the focused widget, as a mathematical value.
    pub closed spec fn spec_focused(&self) -> Option<u64> {
        self.focused
    }

    /// Creates a new focus manager with no initially focused widget.
    pub fn new() -> (r: Self)
        ensures
            r.spec_focused() is None,
    {
        FocusManager { focused: None }
    }

    /// Returns the identifier of the currently focused widget, if any.
    pub fn focused_widget_id(&self) -> (r: Option<u64>)
        ensures
            r == self.spec_focused(),
    {
        self.focused
    }

    /// Moves keyboard focus to `target` (or clears it). Returns false, leaving
    /// the focus alone, when `target` already has it; returns false and clears
    /// the focus when `target` names no widget of the tree.
    pub fn set_focus(&mut self, root: &WidgetNode, target: Option<u64>) -> (r: bool)
        ensures
            r == focus_changes(*root, old(self).spec_focused(), target),
            final(self).spec_focused() == focus_after(*root, old(self).spec_focused(), target),
    {
        if self.focused == target {
            return false;
        }
        self.focused = target;
        match target {
            Some(t) => {
                if find_widget_by_id(root, t).is_some() {
                    true
                } else {
                    self.focused = None;
                    false
                }
            },
            None => true,
        }
    }

    /// Clears keyboard focus from any currently focused widget.
    pub fn clear_focus(&mut self, root: &WidgetNode) -> (r: bool)
        ensures
            r == (old(self).spec_focused() is Some),
            final(self).spec_focused() is None,
    {
        self.set_focus(root, None)
    }

    /// Moves focus to the next widget in the Tab order (`Tab`).
    pub fn focus_next(&mut self, root: &WidgetNode) -> (r: bool)
        ensures
            tab_order(*root).len() == 0 ==> !r && final(self).spec_focused() == old(
                self,
            ).spec_focused(),
            tab_order(*root).len() > 0 ==> {
                let t = Some(next_in_order(tab_order(*root), old(self).spec_focused()));
                &&& r == focus_changes(*root, old(self).spec_focused(), t)
                &&& final(self).spec_focused() == focus_after(*root, old(self).spec_focused(), t)
            },
    {
        let mut order: Vec<u64> = Vec::new();
        collect_tab_focusable(root, &mut order);
        assert(order@ =~= tab_order(*root));
        if order.len() == 0 {
            return false;
        }
        let next = match self.focused {
            Some(current) => match position_of(&order, current) {
                Some(i) => order[(i + 1) % order.len()],
                None => order[0],
            },
            None => order[0],
        };
        self.set_focus(root, Some(next))
    }

    /// Moves focus to the previous widget in the Tab order (`Shift+Tab`).
    pub fn focus_previous(&mut self, root: &WidgetNode) -> (r: bool)
        ensures
            tab_order(*root).len() == 0 ==> !r && final(self).spec_focused() == old(
                self,
            ).spec_focused(),
            tab_order(*root).len() > 0 ==> {
                let t = Some(previous_in_order(tab_order(*root), old(self).spec_focused()));
                &&& r == focus_changes(*root, old(self).spec_focused(), t)
                &&& final(self).spec_focused() == focus_after(*root, old(self).spec_focused(), t)
            },
    {
        let mut order: Vec<u64> = Vec::new();
        collect_tab_focusable(root, &mut order);
        assert(order@ =~= tab_order(*root));
        if order.len() == 0 {
            return false;
        }
        let n = order.len();
        let previous = match self.focused {
            Some(current) => match position_of(&order, current) {
                Some(i) => {
                    // `(i + n - 1) % n`, computed without leaving the index range.
                    let j = if i == 0 {
                        n - 1
                    } else {
                        i - 1
                    };
                    assert(j == (i + n - 1) % (n as int)) by (nonlinear_arith)
                        requires
                            i < n,
                            j == (if i == 0 {
                                n - 1
                            } else {
                                i - 1
                            }),
                    {
                        if i == 0 {
                            assert((n - 1) % (n as int) == n - 1);
                        } else {
                            assert((i + n - 1) == (i - 1) + n * 1);
                        }
                    }
                    order[j]
                },
                None => order[n - 1],
            },
            None => order[n - 1],
        };
        self.set_focus(root, Some(previous))
    }

    /// Handles a mouse click on widget `hit`: focuses the nearest widget from
    /// `hit` upwards that accepts click focus. Returns false, changing nothing,
    /// when no such widget exists or `hit` is not in the tree.
    pub fn handle_mouse_click(&mut self, root: &WidgetNode, hit: u64) -> (r: bool)
        ensures
            match click_target(*root, hit, None) {
                Some(Some(t)) => r == focus_changes(*root, old(self).spec_focused(), Some(t))
                    && final(self).spec_focused() == focus_after(
                    *root,
                    old(self).spec_focused(),
                    Some(t),
                ),
                _ => !r && final(self).spec_focused() == old(self).spec_focused(),
            },
    {
        match find_click_target(root, hit, None) {
            Some(Some(t)) => self.set_focus(root, Some(t)),
            _ => false,
        }
    }
}

/// Shift+Tab undoes Tab: in a Tab order without repeated identifiers, the
/// widget before the one after `x` is `x` itself, and the other way round.
pub proof fn lemma_previous_undoes_next(order: Seq<u64>, x: u64)
    requires
        order.no_duplicates(),
        order.contains(x),
    ensures
        previous_in_order(order, Some(next_in_order(order, Some(x)))) == x,
        next_in_order(order, Some(previous_in_order(order, Some(x)))) == x,
{
    let n = order.len() as int;
    let i = first_index(order, x);
    let j = choose|j: int| 0 <= j < n && order[j] == x;
    assert(0 <= i < n && order[i] == x && forall|k: int| 0 <= k < i ==> order[k] != x) by {
        assert(0 <= j < n && order[j] == x);
        if !(0 <= i < n && order[i] == x && forall|k: int| 0 <= k < i ==> order[k] != x) {
            lemma_first_index_exists(order, x, j);
        }
    }
    // The successor and predecessor positions.
    let a = (i + 1) % n;
    let b = (i + n - 1) % n;
    assert(0 <= a < n && 0 <= b < n) by (nonlinear_arith)
        requires
            0 <= i < n,
            a == (i + 1) % n,
            b == (i + n - 1) % n,
    ;
    assert(order.contains(order[a]));
    assert(order.contains(order[b]));
    lemma_first_index_of_distinct(order, a);
    lemma_first_index_of_distinct(order, b);
    assert((a + n - 1) % n == i && (b + 1) % n == i) by (nonlinear_arith)
        requires
            0 <= i < n,
            a == (i + 1) % n,
            b == (i + n - 1) % n,
    {
        if i + 1 < n {
            assert(a == i + 1);
        } else {
            assert(a == 0);
        }
        if i > 0 {
            assert(b == i - 1);
        } else {
            assert(b == n - 1);
        }
    }
}

/// Tab and Shift+Tab only ever move the focus to a widget that accepts Tab
/// focus and is visible and enabled together with all its ancestors.
pub proof fn lemma_tab_moves_to_reachable(root: WidgetNode, focused: Option<u64>)
    requires
        tab_order(root).len() > 0,
    ensures
        tab_reachable(root, next_in_order(tab_order(root), focused)),
        tab_reachable(root, previous_in_order(tab_order(root), focused)),
{
    let order = tab_order(root);
    let n = order.len() as int;
    let mut a: int = 0;
    let mut b: int = n - 1;
    if let Some(c) = focused {
        if order.contains(c) {
            let j = choose|j: int| 0 <= j < n && order[j] == c;
            lemma_first_index_exists(order, c, j);
            let i = first_index(order, c);
            a = (i + 1) % n;
            b = (i + n - 1) % n;
            assert(0 <= a < n && 0 <= b < n) by (nonlinear_arith)
                requires
                    0 <= i < n,
                    a == (i + 1) % n,
                    b == (i + n - 1) % n,
            ;
        }
    }
    assert(next_in_order(order, focused) == order[a]);
    assert(previous_in_order(order, focused) == order[b]);
    assert(order.contains(order[a]));
    assert(order.contains(order[b]));
    lemma_tab_order_only_reachable(root, order[a]);
    lemma_tab_order_only_reachable(root, order[b]);
}

/// A sequence holding `x` at position `j` has a first position of `x`.
proof fn lemma_first_index_exists(s: Seq<u64>, x: u64, j: int)
    requires
        0 <= j < s.len(),
        s[j] == x,
    ensures
        ({
            let i = first_index(s, x);
            0 <= i < s.len() && s[i] == x && forall|k: int| 0 <= k < i ==> s[k] != x
        }),
    decreases j,
{
    if exists|k: int| 0 <= k < j && s[k] == x {
        let k = choose|k: int| 0 <= k < j && s[k] == x;
        lemma_first_index_exists(s, x, k);
    } else {
        assert(0 <= j < s.len() && s[j] == x && forall|k: int| 0 <= k < j ==> s[k] != x);
    }
}

/// In a sequence without repetitions the first position of an element is its position.
proof fn lemma_first_index_of_distinct(s: Seq<u64>, i: int)
    requires
        s.no_duplicates(),
        0 <= i < s.len(),
    ensures
        first_index(s, s[i]) == i,
{
    assert(0 <= i < s.len() && s[i] == s[i] && forall|k: int| 0 <= k < i ==> s[k] != s[i]);
    let c = first_index(s, s[i]);
    assert(0 <= c < s.len() && s[c] == s[i]);
}

} // verus!
