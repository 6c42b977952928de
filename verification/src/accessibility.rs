use std::collections::HashMap;
use vstd::prelude::*;

use crate::focus::{find_node, find_node_list, FocusPolicy};
use crate::text::str_to_string;
use crate::widget_node::WidgetNode;

verus! {

broadcast use vstd::std_specs::hash::group_hash_axioms;

/// Semantic role exposed to assistive technology.
#[derive(Debug, Clone, Copy, PartialEq, Eq, Hash, Structural)]
pub enum AccessibleRole {
    Application,
    Window,
    Dialog,
    Group,
    Button,
    CheckBox,
    RadioButton,
    Text,
    TextInput,
    Image,
    List,
    ListItem,
    Menu,
    MenuItem,
    Slider,
    ProgressIndicator,
    Table,
    Row,
    Cell,
    Custom,
}

/// Runtime properties of an accessible element.
#[derive(Debug, Clone, Copy, PartialEq, Eq, Hash, Structural)]
pub enum AccessibleState {
    Disabled,
    Focusable,
    Focused,
    Checked,
    Expanded,
    Selected,
    Busy,
    Invisible,
    ReadOnly,
    Required,
}

/// Operations an assistive-technology client can request.
#[derive(Debug, Clone, Copy, PartialEq, Eq, Hash, Structural)]
pub enum AccessibleAction {
    Invoke,
    Focus,
    Increment,
    Decrement,
    Expand,
    Collapse,
    SetValue,
}

/// Stable identifier within an accessibility tree.
#[derive(Debug, Clone, Copy, PartialEq, Eq, Hash, PartialOrd, Ord, Structural)]
pub struct AccessibleId(pub u64);

/// A semantic element. Parent/child structure is owned by [`AccessibleTree`].
#[derive(Debug, Clone, PartialEq, Eq)]
pub struct AccessibleNode {
    pub id: AccessibleId,
    pub role: AccessibleRole,
    pub name: String,
    pub description: String,
    pub value: Option<String>,
    pub states: Vec<AccessibleState>,
    pub actions: Vec<AccessibleAction>,
}

impl AccessibleNode {
    /// Creates a node with the given identity, role and name, and nothing else.
    pub fn new(id: AccessibleId, role: AccessibleRole, name: &str) -> (r: Self)
        ensures
            r.id == id,
            r.role == role,
            r.name@ == name@,
            r.description@ == Seq::<char>::empty(),
            r.value is None,
            r.states@ == Seq::<AccessibleState>::empty(),
            r.actions@ == Seq::<AccessibleAction>::empty(),
    {
        AccessibleNode {
            id,
            role,
            name: str_to_string(name),
            description: String::new(),
            value: None,
            states: Vec::new(),
            actions: Vec::new(),
        }
    }

    /// Whether `state` is among the node's states.
    pub fn has_state(&self, state: AccessibleState) -> (r: bool)
        ensures
            r == self.states@.contains(state),
    {
        let mut i: usize = 0;
        while i < self.states.len()
            invariant
                0 <= i <= self.states.len(),
                forall|j: int| 0 <= j < i ==> self.states@[j] != state,
            decreases self.states.len() - i,
        {
            if self.states[i] == state {
                return true;
            }
            i = i + 1;
        }
        false
    }

    /// Whether `action` is among the node's supported actions.
    pub fn supports_action(&self, action: AccessibleAction) -> (r: bool)
        ensures
            r == self.actions@.contains(action),
    {
        let mut i: usize = 0;
        while i < self.actions.len()
            invariant
                0 <= i <= self.actions.len(),
                forall|j: int| 0 <= j < i ==> self.actions@[j] != action,
            decreases self.actions.len() - i,
        {
            if self.actions[i] == action {
                return true;
            }
            i = i + 1;
        }
        false
    }
}

/// The node `k` steps up from `x` following parent links, if the chain is that long.
pub open spec fn ancestor_at(parents: Map<u64, AccessibleId>, x: u64, k: nat) -> Option<u64>
    decreases k,
{
    if k == 0 {
        Some(x)
    } else if parents.contains_key(x) {
        ancestor_at(parents, parents[x].0, (k - 1) as nat)
    } else {
        None
    }
}

/// `x` lies in the subtree rooted at `a` (`a` itself included).
pub open spec fn in_subtree(parents: Map<u64, AccessibleId>, a: u64, x: u64) -> bool {
    exists|k: nat| ancestor_at(parents, x, k) == Some(a)
}

/// `s` with every occurrence of `x` taken out, order kept.
pub open spec fn without(s: Seq<AccessibleId>, x: AccessibleId) -> Seq<AccessibleId>
    decreases s.len(),
{
    if s.len() == 0 {
        s
    } else if s.last() == x {
        without(s.drop_last(), x)
    } else {
        without(s.drop_last(), x).push(s.last())
    }
}

/// What removing `x` from a list keeps.
pub proof fn lemma_without_contains(s: Seq<AccessibleId>, x: AccessibleId, c: AccessibleId)
    ensures
        without(s, x).contains(c) <==> (s.contains(c) && c != x),
    decreases s.len(),
{
    if s.len() > 0 {
        let d = s.drop_last();
        lemma_without_contains(d, x, c);
        let w = without(d, x);
        assert(s.contains(c) <==> (d.contains(c) || c == s.last())) by {
            if d.contains(c) {
                let j = choose|j: int| 0 <= j < d.len() && d[j] == c;
                assert(s[j] == c);
            }
            if c == s.last() {
                assert(s[s.len() - 1] == c);
            }
            if s.contains(c) && c != s.last() {
                let j = choose|j: int| 0 <= j < s.len() && s[j] == c;
                assert(d[j] == c);
            }
        }
        if s.last() != x {
            assert(w.push(s.last()).contains(c) <==> (w.contains(c) || c == s.last())) by {
                if w.contains(c) {
                    let j = choose|j: int| 0 <= j < w.len() && w[j] == c;
                    assert(w.push(s.last())[j] == c);
                }
                if c == s.last() {
                    assert(w.push(s.last())[w.len() as int] == c);
                }
                if w.push(s.last()).contains(c) && c != s.last() {
                    let j = choose|j: int|
                        0 <= j < w.push(s.last()).len() && w.push(s.last())[j] == c;
                    assert(w[j] == c);
                }
            }
        }
    }
}

/// Removing an element a list does not hold leaves the list as it was.
pub proof fn lemma_without_absent(s: Seq<AccessibleId>, x: AccessibleId)
    requires
        !s.contains(x),
    ensures
        without(s, x) == s,
    decreases s.len(),
{
    if s.len() > 0 {
        let d = s.drop_last();
        assert(!d.contains(x)) by {
            if d.contains(x) {
                let j = choose|j: int| 0 <= j < d.len() && d[j] == x;
                assert(s[j] == x);
            }
        }
        lemma_without_absent(d, x);
        assert(s.last() != x) by {
            assert(s[s.len() - 1] == s.last());
        }
        assert(d.push(s.last()) =~= s);
    }
}

/// Removing an element keeps a duplicate-free list duplicate-free.
pub proof fn lemma_without_no_duplicates(s: Seq<AccessibleId>, x: AccessibleId)
    requires
        s.no_duplicates(),
    ensures
        without(s, x).no_duplicates(),
    decreases s.len(),
{
    if s.len() > 0 {
        let d = s.drop_last();
        assert(d.no_duplicates());
        lemma_without_no_duplicates(d, x);
        if s.last() != x {
            lemma_without_contains(d, x, s.last());
            assert(!d.contains(s.last())) by {
                if d.contains(s.last()) {
                    let j = choose|j: int| 0 <= j < d.len() && d[j] == s.last();
                    assert(s[j] == s[s.len() - 1]);
                }
            }
            let w = without(d, x);
            assert forall|i: int, j: int|
                0 <= i < w.push(s.last()).len() && 0 <= j < w.push(s.last()).len() && i != j
                    implies w.push(s.last())[i] != w.push(s.last())[j] by {
                if i == w.len() {
                    assert(w[j] == w.push(s.last())[j]);
                    assert(w.contains(w[j]));
                } else if j == w.len() {
                    assert(w.contains(w[i]));
                }
            }
        }
    }
}

/// Every parent link points to a strictly smaller rank.
pub open spec fn ranked(parents: Map<u64, AccessibleId>, rank: Map<u64, nat>) -> bool {
    forall|c: u64| #[trigger]
        parents.contains_key(c) ==> rank.contains_key(c) && rank.contains_key(parents[c].0)
            && rank[parents[c].0] < rank[c]
}

/// One more step up the chain is the parent of the node reached so far.
pub proof fn lemma_ancestor_next(parents: Map<u64, AccessibleId>, x: u64, k: nat)
    ensures
        ancestor_at(parents, x, k + 1) == match ancestor_at(parents, x, k) {
            Some(y) => if parents.contains_key(y) {
                Some(parents[y].0)
            } else {
                None
            },
            None => None,
        },
    decreases k,
{
    reveal_with_fuel(ancestor_at, 2);
    if k > 0 && parents.contains_key(x) {
        lemma_ancestor_next(parents, parents[x].0, (k - 1) as nat);
    }
}

/// Once the chain ends it stays ended.
pub proof fn lemma_ancestor_none(parents: Map<u64, AccessibleId>, x: u64, k: nat, j: nat)
    requires
        ancestor_at(parents, x, k) is None,
        k <= j,
    ensures
        ancestor_at(parents, x, j) is None,
    decreases j - k,
{
    if k < j {
        lemma_ancestor_next(parents, x, k);
        lemma_ancestor_none(parents, x, k + 1, j);
    }
}

/// Ranks never grow along a chain of parents, and strictly fall after one step.
pub proof fn lemma_ancestor_rank(
    parents: Map<u64, AccessibleId>,
    rank: Map<u64, nat>,
    x: u64,
    k: nat,
    a: u64,
)
    requires
        ranked(parents, rank),
        rank.contains_key(x),
        ancestor_at(parents, x, k) == Some(a),
    ensures
        rank.contains_key(a),
        rank[a] <= rank[x],
        k > 0 ==> rank[a] < rank[x],
    decreases k,
{
    if k > 0 {
        lemma_ancestor_rank(parents, rank, parents[x].0, (k - 1) as nat, a);
    }
}

/// A node whose subtree holds `x` sits directly above the node one step below it.
pub proof fn lemma_ancestor_child(parents: Map<u64, AccessibleId>, x: u64, k: nat, a: u64)
    requires
        k > 0,
        ancestor_at(parents, x, k) == Some(a),
    ensures
        ({
            let c = ancestor_at(parents, x, (k - 1) as nat);
            c is Some && parents.contains_key(c->0) && parents[c->0].0 == a
        }),
{
    lemma_ancestor_next(parents, x, (k - 1) as nat);
}

/// A node inside the subtree of `a`, other than `a`, has its parent there too.
pub proof fn lemma_subtree_parent(parents: Map<u64, AccessibleId>, a: u64, x: u64)
    requires
        in_subtree(parents, a, x),
        x != a,
    ensures
        parents.contains_key(x),
        in_subtree(parents, a, parents[x].0),
{
    let k = choose|k: nat| ancestor_at(parents, x, k) == Some(a);
    assert(k > 0);
    assert(ancestor_at(parents, parents[x].0, (k - 1) as nat) == Some(a));
}

/// The child of a node of the subtree of `a` is in that subtree as well.
pub proof fn lemma_subtree_child(parents: Map<u64, AccessibleId>, a: u64, x: u64)
    requires
        parents.contains_key(x),
        in_subtree(parents, a, parents[x].0),
    ensures
        in_subtree(parents, a, x),
{
    let k = choose|k: nat| ancestor_at(parents, parents[x].0, k) == Some(a);
    assert(ancestor_at(parents, x, k + 1) == Some(a));
}

/// The elements of `v` other than `x`, in order.
fn without_vec(v: &Vec<AccessibleId>, x: AccessibleId) -> (r: Vec<AccessibleId>)
    ensures
        r@ == without(v@, x),
{
    let mut kept: Vec<AccessibleId> = Vec::new();
    let mut i: usize = 0;
    while i < v.len()
        invariant
            0 <= i <= v.len(),
            kept@ == without(v@.subrange(0, i as int), x),
        decreases v.len() - i,
    {
        let c = v[i];
        proof {
            let s = v@.subrange(0, i as int + 1);
            assert(s.drop_last() =~= v@.subrange(0, i as int));
        }
        if c != x {
            kept.push(c);
        }
        i = i + 1;
    }
    assert(v@.subrange(0, v@.len() as int) =~= v@);
    kept
}

/// Following parent links from a node of the tree stays inside the tree.
pub proof fn lemma_ancestor_in_nodes<V>(
    parents: Map<u64, AccessibleId>,
    nodes: Map<u64, V>,
    x: u64,
    k: nat,
    y: u64,
)
    requires
        forall|c: u64| #[trigger] parents.contains_key(c) ==> nodes.contains_key(parents[c].0),
        nodes.contains_key(x),
        ancestor_at(parents, x, k) == Some(y),
    ensures
        nodes.contains_key(y),
    decreases k,
{
    if k > 0 {
        lemma_ancestor_in_nodes(parents, nodes, parents[x].0, (k - 1) as nat, y);
    }
}

/// A node without a parent lies only in its own subtree.
pub proof fn lemma_subtree_of_parentless(parents: Map<u64, AccessibleId>, a: u64, r: u64)
    requires
        !parents.contains_key(r),
        in_subtree(parents, a, r),
    ensures
        r == a,
{
    let k = choose|k: nat| ancestor_at(parents, r, k) == Some(a);
    if k > 0 {
        assert(ancestor_at(parents, r, k) is None);
    }
}

/// The states an accessibility snapshot derives from a widget's flags, in order.
pub open spec fn widget_states(w: WidgetNode) -> Seq<AccessibleState> {
    let s0 = Seq::<AccessibleState>::empty();
    let s1 = if !w.enabled {
        s0.push(AccessibleState::Disabled)
    } else {
        s0
    };
    let s2 = if !w.visible {
        s1.push(AccessibleState::Invisible)
    } else {
        s1
    };
    let s3 = if w.has_focus {
        s2.push(AccessibleState::Focused)
    } else {
        s2
    };
    if w.focus_policy != FocusPolicy::NoFocus {
        s3.push(AccessibleState::Focusable)
    } else {
        s3
    }
}

/// `n` is the accessible node that describes widget `w`.
pub open spec fn node_describes(n: AccessibleNode, w: WidgetNode) -> bool {
    &&& n.id == AccessibleId(w.id)
    &&& n.role == w.accessible_role
    &&& n.name@ == w.accessible_name@
    &&& n.description@ == Seq::<char>::empty()
    &&& match (n.value, w.accessible_value) {
        (Some(a), Some(b)) => a@ == b@,
        (None, None) => true,
        _ => false,
    }
    &&& n.states@ == widget_states(w)
    &&& n.actions@ == w.accessible_actions@
}

/// The accessible node describing one widget (without its children).
fn describe_widget(w: &WidgetNode) -> (n: AccessibleNode)
    ensures
        node_describes(n, *w),
{
    let mut node = AccessibleNode::new(AccessibleId(w.id), w.accessible_role, w.accessible_name.as_str());
    node.value = match &w.accessible_value {
        Some(v) => Some(str_to_string(v.as_str())),
        None => None,
    };
    let mut actions: Vec<AccessibleAction> = Vec::new();
    let mut i: usize = 0;
    while i < w.accessible_actions.len()
        invariant
            0 <= i <= w.accessible_actions.len(),
            actions@ == w.accessible_actions@.subrange(0, i as int),
        decreases w.accessible_actions.len() - i,
    {
        actions.push(w.accessible_actions[i]);
        i = i + 1;
        assert(actions@ =~= w.accessible_actions@.subrange(0, i as int));
    }
    assert(actions@ =~= w.accessible_actions@);
    node.actions = actions;
    if !w.enabled {
        node.states.push(AccessibleState::Disabled);
    }
    if !w.visible {
        node.states.push(AccessibleState::Invisible);
    }
    if w.has_focus {
        node.states.push(AccessibleState::Focused);
    }
    let focusable = match w.focus_policy {
        FocusPolicy::NoFocus => false,
        _ => true,
    };
    if focusable {
        node.states.push(AccessibleState::Focusable);
    }
    assert(node.states@ =~= widget_states(*w));
    node
}

/// What a snapshot made from widgets holds: its root, the widget each node
/// was made from, the parent of every non-root node and each node's children.
pub struct SnapshotShape {
    pub root: Option<AccessibleId>,
    pub widgets: Map<u64, WidgetNode>,
    pub parents: Map<u64, AccessibleId>,
    pub children: Map<u64, Seq<AccessibleId>>,
}

/// The shape of an empty tree.
pub open spec fn empty_shape() -> SnapshotShape {
    SnapshotShape {
        root: None,
        widgets: Map::empty(),
        parents: Map::empty(),
        children: Map::empty(),
    }
}

/// `s` with widget `w` added alone (as the root when `parent` is `None`, else
/// as the last child of `parent`); `None` when the tree refuses it: a root is
/// already set, the parent is unknown, or the identifier is taken.
pub open spec fn shape_add(s: SnapshotShape, w: WidgetNode, parent: Option<AccessibleId>) -> Option<
    SnapshotShape,
> {
    let id = AccessibleId(w.id);
    match parent {
        None => if s.root is None && !s.widgets.contains_key(w.id) {
            Some(
                SnapshotShape {
                    root: Some(id),
                    widgets: s.widgets.insert(w.id, w),
                    parents: s.parents,
                    children: s.children.insert(w.id, Seq::empty()),
                },
            )
        } else {
            None
        },
        Some(p) => if s.widgets.contains_key(p.0) && !s.widgets.contains_key(w.id) {
            Some(
                SnapshotShape {
                    root: s.root,
                    widgets: s.widgets.insert(w.id, w),
                    parents: s.parents.insert(w.id, p),
                    children: s.children.insert(p.0, s.children[p.0].push(id)).insert(
                        w.id,
                        Seq::empty(),
                    ),
                },
            )
        } else {
            None
        },
    }
}

/// `s` after adding the subtree of `w` in pre-order: `w` first, then each
/// child's subtree in turn under `w`. A widget that is refused is skipped
/// together with its subtree, so the first widget to claim an identifier wins.
pub open spec fn shape_append(s: SnapshotShape, w: WidgetNode, parent: Option<AccessibleId>) -> SnapshotShape
    decreases w, 0nat,
{
    match shape_add(s, w, parent) {
        None => s,
        Some(s1) => shape_append_list(s1, w.children@, AccessibleId(w.id)),
    }
}

/// `s` after adding the subtrees `ws`, one after the other, under `p`.
pub open spec fn shape_append_list(s: SnapshotShape, ws: Seq<WidgetNode>, p: AccessibleId) -> SnapshotShape
    decreases ws, 1nat,
{
    if ws.len() == 0 {
        s
    } else {
        shape_append(shape_append_list(s, ws.drop_last(), p), ws.last(), Some(p))
    }
}

/// The tree `m` holds exactly the shape `s`, each node describing its widget.
pub open spec fn model_matches(m: TreeModel, s: SnapshotShape) -> bool {
    &&& m.root == s.root
    &&& m.parents == s.parents
    &&& m.children == s.children
    &&& m.nodes.dom() == s.widgets.dom()
    &&& forall|k: u64| #[trigger]
        s.widgets.contains_key(k) ==> node_describes(m.nodes[k], s.widgets[k])
}

/// Adding a subtree under a parent keeps the root and every widget already held.
proof fn lemma_append_keeps(s: SnapshotShape, w: WidgetNode, p: AccessibleId)
    ensures
        shape_append(s, w, Some(p)).root == s.root,
        forall|k: u64| #[trigger]
            s.widgets.contains_key(k) ==> shape_append(s, w, Some(p)).widgets.contains_key(k)
                && shape_append(s, w, Some(p)).widgets[k] == s.widgets[k],
    decreases w, 0nat,
{
    if let Some(s1) = shape_add(s, w, Some(p)) {
        lemma_append_list_keeps(s1, w.children@, AccessibleId(w.id));
        assert forall|k: u64| #[trigger] s.widgets.contains_key(k) implies s1.widgets.contains_key(k)
            && s1.widgets[k] == s.widgets[k] by {
            assert(k != w.id);
        }
    }
}

proof fn lemma_append_list_keeps(s: SnapshotShape, ws: Seq<WidgetNode>, p: AccessibleId)
    ensures
        shape_append_list(s, ws, p).root == s.root,
        forall|k: u64| #[trigger]
            s.widgets.contains_key(k) ==> shape_append_list(s, ws, p).widgets.contains_key(k)
                && shape_append_list(s, ws, p).widgets[k] == s.widgets[k],
    decreases ws, 1nat,
{
    if ws.len() > 0 {
        lemma_append_list_keeps(s, ws.drop_last(), p);
        lemma_append_keeps(shape_append_list(s, ws.drop_last(), p), ws.last(), p);
    }
}

/// A snapshot started from an empty tree has the first widget as its root.
proof fn lemma_shape_keeps_root(s: SnapshotShape, w: WidgetNode)
    requires
        s == empty_shape(),
    ensures
        shape_append(s, w, None).root == Some(AccessibleId(w.id)),
        shape_append(s, w, None).widgets.contains_key(w.id),
        shape_append(s, w, None).widgets[w.id] == w,
{
    let s1 = shape_add(s, w, None).unwrap();
    assert(s1.widgets.contains_key(w.id));
    lemma_append_list_keeps(s1, w.children@, AccessibleId(w.id));
}

/// Identifiers of the widgets of `w`'s subtree, in pre-order.
pub open spec fn subtree_ids(w: WidgetNode) -> Seq<u64>
    decreases w, 0nat,
{
    seq![w.id] + list_ids(w.children@)
}

/// Identifiers of the widgets of the subtrees `ws`, one subtree after the other.
pub open spec fn list_ids(ws: Seq<WidgetNode>) -> Seq<u64>
    decreases ws, 1nat,
{
    if ws.len() == 0 {
        Seq::empty()
    } else {
        list_ids(ws.drop_last()) + subtree_ids(ws.last())
    }
}

/// The accessible identifiers of the widgets `ws`, in order.
pub open spec fn child_ids(ws: Seq<WidgetNode>) -> Seq<AccessibleId> {
    ws.map_values(|c: WidgetNode| AccessibleId(c.id))
}

/// Both halves of a list without repeats are without repeats, and share nothing.
proof fn lemma_concat_distinct(a: Seq<u64>, b: Seq<u64>)
    requires
        (a + b).no_duplicates(),
    ensures
        a.no_duplicates(),
        b.no_duplicates(),
        forall|x: u64| a.contains(x) ==> !b.contains(x),
{
    let c = a + b;
    assert forall|i: int, j: int| 0 <= i < a.len() && 0 <= j < a.len() && i != j implies a[i]
        != a[j] by {
        assert(c[i] == a[i] && c[j] == a[j]);
    }
    assert forall|i: int, j: int| 0 <= i < b.len() && 0 <= j < b.len() && i != j implies b[i]
        != b[j] by {
        assert(c[a.len() + i] == b[i] && c[a.len() + j] == b[j]);
    }
    assert forall|x: u64| a.contains(x) implies !b.contains(x) by {
        let i = choose|i: int| 0 <= i < a.len() && a[i] == x;
        if b.contains(x) {
            let j = choose|j: int| 0 <= j < b.len() && b[j] == x;
            assert(c[i] == c[a.len() + j]);
        }
    }
}

/// A widget is found in a subtree exactly when its identifier is listed there.
proof fn lemma_ids_find(w: WidgetNode, k: u64)
    ensures
        find_node(w, k) is Some <==> subtree_ids(w).contains(k),
    decreases w, 0nat,
{
    lemma_ids_find_list(w.children@, k);
    vstd::seq_lib::lemma_seq_concat_contains_all_elements(seq![w.id], list_ids(w.children@), k);
    assert(seq![w.id].contains(k) <==> k == w.id) by {
        if k == w.id {
            assert(seq![w.id][0] == k);
        }
    }
}

proof fn lemma_ids_find_list(ws: Seq<WidgetNode>, k: u64)
    ensures
        find_node_list(ws, k) is Some <==> list_ids(ws).contains(k),
    decreases ws, 1nat,
{
    if ws.len() > 0 {
        lemma_ids_find_list(ws.drop_last(), k);
        lemma_ids_find(ws.last(), k);
        vstd::seq_lib::lemma_seq_concat_contains_all_elements(
            list_ids(ws.drop_last()),
            subtree_ids(ws.last()),
            k,
        );
    }
}

/// Adding a subtree whose identifiers are distinct and all new adds every
/// widget of it, each under its own parent with its children in order.
proof fn lemma_append_distinct(s: SnapshotShape, w: WidgetNode, parent: Option<AccessibleId>)
    requires
        parent matches Some(p) ==> s.widgets.contains_key(p.0),
        parent is None ==> s.root is None,
        subtree_ids(w).no_duplicates(),
        forall|k: u64| #[trigger] subtree_ids(w).contains(k) ==> !s.widgets.contains_key(k),
    ensures
        forall|k: u64| #[trigger]
            shape_append(s, w, parent).widgets.contains_key(k) <==> (s.widgets.contains_key(k)
                || subtree_ids(w).contains(k)),
        forall|k: u64|
            s.widgets.contains_key(k) && parent != Some(AccessibleId(k)) ==> #[trigger] shape_append(
                s,
                w,
                parent,
            ).children[k] == s.children[k],
        parent matches Some(p) ==> shape_append(s, w, parent).children[p.0] == s.children[p.0].push(
            AccessibleId(w.id),
        ),
        forall|k: u64| #[trigger]
            subtree_ids(w).contains(k) ==> find_node(w, k) is Some && shape_append(
                s,
                w,
                parent,
            ).widgets[k] == find_node(w, k)->0 && shape_append(s, w, parent).children[k]
                == child_ids(find_node(w, k)->0.children@),
    decreases w, 0nat,
{
    let id = w.id;
    let kids = w.children@;
    lemma_concat_distinct(seq![id], list_ids(kids));
    assert(seq![id][0] == id);
    vstd::seq_lib::lemma_seq_concat_contains_all_elements(seq![id], list_ids(kids), id);
    let s1 = shape_add(s, w, parent).unwrap();
    assert forall|k: u64| #[trigger] list_ids(kids).contains(k) implies !s1.widgets.contains_key(k) by {
        vstd::seq_lib::lemma_seq_concat_contains_all_elements(seq![id], list_ids(kids), k);
        assert(seq![id].contains(id));
    }
    lemma_append_list_distinct(s1, kids, AccessibleId(id));
    lemma_append_list_keeps(s1, kids, AccessibleId(id));
    let r = shape_append(s, w, parent);
    assert(r == shape_append_list(s1, kids, AccessibleId(id)));
    assert forall|k: u64| #[trigger]
        r.widgets.contains_key(k) <==> (s.widgets.contains_key(k) || subtree_ids(w).contains(k)) by {
        vstd::seq_lib::lemma_seq_concat_contains_all_elements(seq![id], list_ids(kids), k);
        if k == id {
            assert(seq![id].contains(k));
        }
        if seq![id].contains(k) {
            let j = choose|j: int| 0 <= j < 1 && seq![id][j] == k;
        }
    }
    assert forall|k: u64|
        s.widgets.contains_key(k) && parent != Some(AccessibleId(k)) implies #[trigger] r.children[k]
        == s.children[k] by {
        assert(k != id);
        assert(s1.widgets.contains_key(k));
    }
    assert forall|k: u64| #[trigger] subtree_ids(w).contains(k) implies find_node(w, k) is Some
        && r.widgets[k] == find_node(w, k)->0 && r.children[k] == child_ids(
        find_node(w, k)->0.children@,
    ) by {
        vstd::seq_lib::lemma_seq_concat_contains_all_elements(seq![id], list_ids(kids), k);
        if k == id {
            assert(s1.widgets.contains_key(id));
            assert(s1.children[id] + child_ids(kids) =~= child_ids(kids));
        } else {
            if seq![id].contains(k) {
                let j = choose|j: int| 0 <= j < 1 && seq![id][j] == k;
            }
            lemma_ids_find_list(kids, k);
        }
    }
}

proof fn lemma_append_list_distinct(s: SnapshotShape, ws: Seq<WidgetNode>, p: AccessibleId)
    requires
        s.widgets.contains_key(p.0),
        list_ids(ws).no_duplicates(),
        forall|k: u64| #[trigger] list_ids(ws).contains(k) ==> !s.widgets.contains_key(k),
    ensures
        forall|k: u64| #[trigger]
            shape_append_list(s, ws, p).widgets.contains_key(k) <==> (s.widgets.contains_key(k)
                || list_ids(ws).contains(k)),
        forall|k: u64|
            s.widgets.contains_key(k) && k != p.0 ==> #[trigger] shape_append_list(s, ws, p).children[k]
                == s.children[k],
        shape_append_list(s, ws, p).children[p.0] == s.children[p.0] + child_ids(ws),
        forall|k: u64| #[trigger]
            list_ids(ws).contains(k) ==> find_node_list(ws, k) is Some && shape_append_list(
                s,
                ws,
                p,
            ).widgets[k] == find_node_list(ws, k)->0 && shape_append_list(s, ws, p).children[k]
                == child_ids(find_node_list(ws, k)->0.children@),
    decreases ws, 1nat,
{
    if ws.len() == 0 {
        assert(s.children[p.0] + child_ids(ws) =~= s.children[p.0]);
    } else {
        let d = ws.drop_last();
        let l = ws.last();
        lemma_concat_distinct(list_ids(d), subtree_ids(l));
        assert forall|k: u64| #[trigger] list_ids(d).contains(k) implies !s.widgets.contains_key(k) by {
            vstd::seq_lib::lemma_seq_concat_contains_all_elements(list_ids(d), subtree_ids(l), k);
        }
        lemma_append_list_distinct(s, d, p);
        let s2 = shape_append_list(s, d, p);
        assert forall|k: u64| #[trigger] subtree_ids(l).contains(k) implies !s2.widgets.contains_key(k) by {
            vstd::seq_lib::lemma_seq_concat_contains_all_elements(list_ids(d), subtree_ids(l), k);
        }
        lemma_append_distinct(s2, l, Some(p));
        lemma_append_keeps(s2, l, p);
        let r = shape_append_list(s, ws, p);
        assert(r == shape_append(s2, l, Some(p)));
        assert(child_ids(ws) =~= child_ids(d).push(AccessibleId(l.id)));
        assert(s.children[p.0] + child_ids(ws) =~= (s.children[p.0] + child_ids(d)).push(
            AccessibleId(l.id),
        ));
        assert forall|k: u64| #[trigger]
            r.widgets.contains_key(k) <==> (s.widgets.contains_key(k) || list_ids(ws).contains(k)) by {
            vstd::seq_lib::lemma_seq_concat_contains_all_elements(list_ids(d), subtree_ids(l), k);
        }
        assert forall|k: u64| s.widgets.contains_key(k) && k != p.0 implies #[trigger] r.children[k]
            == s.children[k] by {
            assert(s2.widgets.contains_key(k));
            assert(s2.children[k] == s.children[k]);
        }
        assert forall|k: u64| #[trigger] list_ids(ws).contains(k) implies find_node_list(ws, k) is Some
            && r.widgets[k] == find_node_list(ws, k)->0 && r.children[k] == child_ids(
            find_node_list(ws, k)->0.children@,
        ) by {
            vstd::seq_lib::lemma_seq_concat_contains_all_elements(list_ids(d), subtree_ids(l), k);
            lemma_ids_find_list(d, k);
            if list_ids(d).contains(k) {
                assert(s2.widgets.contains_key(k));
                assert(!s.widgets.contains_key(k));
                assert(k != p.0);
                assert(r.children[k] == s2.children[k]);
            } else {
                assert(subtree_ids(l).contains(k));
            }
        }
    }
}

/// With pairwise distinct identifiers, a snapshot made from a widget hierarchy
/// holds one node for every widget of it and no other, each node made from
/// its widget and listing the identifiers of that widget's children, in order.
pub proof fn lemma_snapshot_copies_hierarchy(root: WidgetNode)
    requires
        subtree_ids(root).no_duplicates(),
    ensures
        forall|k: u64| #[trigger]
            shape_append(empty_shape(), root, None).widgets.contains_key(k) <==> subtree_ids(
                root,
            ).contains(k),
        forall|k: u64| #[trigger]
            subtree_ids(root).contains(k) ==> find_node(root, k) is Some && shape_append(
                empty_shape(),
                root,
                None,
            ).widgets[k] == find_node(root, k)->0 && shape_append(empty_shape(), root, None).children[k]
                == child_ids(find_node(root, k)->0.children@),
{
    lemma_append_distinct(empty_shape(), root, None);
}

/// Adds widget `w` (under `parent`, or as the root) and then its children in
/// order; a widget that cannot be added is skipped with its subtree.
fn append_widget(
    tree: &mut AccessibleTree,
    w: &WidgetNode,
    parent: Option<AccessibleId>,
    Ghost(s): Ghost<SnapshotShape>,
)
    requires
        old(tree).wf(),
        model_matches(old(tree).model(), s),
    ensures
        final(tree).wf(),
        model_matches(final(tree).model(), shape_append(s, *w, parent)),
    decreases w,
{
    let id = AccessibleId(w.id);
    let node = describe_widget(w);
    let inserted = match parent {
        Some(p) => tree.insert(p, node).is_ok(),
        None => tree.set_root(node).is_ok(),
    };
    if inserted {
        let ghost s1 = shape_add(s, *w, parent).unwrap();
        proof {
            assert(tree.model().nodes.dom() =~= s1.widgets.dom());
        }
        let mut i: usize = 0;
        while i < w.children.len()
            invariant
                0 <= i <= w.children.len(),
                shape_add(s, *w, parent) == Some(s1),
                tree.wf(),
                model_matches(
                    tree.model(),
                    shape_append_list(s1, w.children@.subrange(0, i as int), id),
                ),
            decreases w.children.len() - i,
        {
            proof {
                assert(decreases_to!(*w => w.children));
                assert(decreases_to!(w.children => w.children@));
                assert(decreases_to!(w.children@ => w.children@[i as int]));
            }
            let ghost before = shape_append_list(s1, w.children@.subrange(0, i as int), id);
            append_widget(tree, &w.children[i], Some(id), Ghost(before));
            proof {
                let next = w.children@.subrange(0, i + 1);
                assert(next.drop_last() =~= w.children@.subrange(0, i as int));
                assert(next.last() == w.children@[i as int]);
            }
            i = i + 1;
        }
        proof {
            assert(w.children@.subrange(0, i as int) =~= w.children@);
        }
    } else {
        proof {
            assert(shape_add(s, *w, parent) is None);
        }
    }
}

/// Ghost-free snapshot of an accessibility tree: its root, its nodes, the
/// parent of every non-root node and the ordered child list of every node.
pub struct TreeModel {
    pub root: Option<AccessibleId>,
    pub nodes: Map<u64, AccessibleNode>,
    pub parents: Map<u64, AccessibleId>,
    pub children: Map<u64, Seq<AccessibleId>>,
}

/// In-memory accessible hierarchy that platform bridges can query and mirror.
///
/// IDs are unique per tree. Every non-root node has exactly one parent; removal
/// deletes its entire subtree. Mutations reject missing IDs and cycles rather
/// than leaving a malformed tree for a platform accessibility provider.
pub struct AccessibleTree {
    root: Option<AccessibleId>,
    nodes: HashMap<u64, AccessibleNode>,
    parents: HashMap<u64, AccessibleId>,
    children: HashMap<u64, Vec<AccessibleId>>,
    /// A depth-like rank that strictly grows from parent to child.
    rank: Ghost<Map<u64, nat>>,
}

impl AccessibleTree {
    /// The tree as mathematical maps.
    pub closed spec fn model(&self) -> TreeModel {
        TreeModel {
            root: self.root,
            nodes: self.nodes@,
            parents: self.parents@,
            children: Map::new(|k: u64| self.children@.contains_key(k), |k: u64| self.children@[k]@),
        }
    }

    /// The structural invariant: identifiers match their keys, every non-root
    /// node has exactly one parent inside the tree, parent and child links
    /// agree, child lists repeat nothing, and no node is its own ancestor.
    pub closed spec fn wf(&self) -> bool {
        let nodes = self.nodes@;
        let parents = self.parents@;
        let children = self.children@;
        let rank = self.rank@;
        &&& forall|k: u64| #[trigger] nodes.contains_key(k) ==> nodes[k].id.0 == k
        &&& match self.root {
            None => nodes.dom().is_empty(),
            Some(r) => nodes.contains_key(r.0) && !parents.contains_key(r.0),
        }
        &&& forall|k: u64|
            #[trigger] parents.contains_key(k) <==> (nodes.contains_key(k) && self.root != Some(
                AccessibleId(k),
            ))
        &&& forall|k: u64| #[trigger] parents.contains_key(k) ==> nodes.contains_key(parents[k].0)
        &&& forall|k: u64| #[trigger] children.contains_key(k) <==> nodes.contains_key(k)
        &&& forall|p: u64, i: int|
            children.contains_key(p) && 0 <= i < children[p]@.len() ==> {
                let c = #[trigger] children[p]@[i];
                parents.contains_key(c.0) && parents[c.0].0 == p
            }
        &&& forall|c: u64| #[trigger]
            parents.contains_key(c) ==> children[parents[c].0]@.contains(AccessibleId(c))
        &&& forall|p: u64| #[trigger] children.contains_key(p) ==> children[p]@.no_duplicates()
        &&& forall|k: u64| #[trigger] rank.contains_key(k) <==> nodes.contains_key(k)
        &&& forall|c: u64| #[trigger]
            parents.contains_key(c) ==> rank[parents[c].0] < rank[c]
    }

    /// Every node of a well-formed tree lies below the root.
    proof fn lemma_reaches_root(&self, x: u64)
        requires
            self.wf(),
            self.model().nodes.contains_key(x),
        ensures
            self.model().root is Some,
            in_subtree(self.model().parents, self.model().root.unwrap().0, x),
        decreases self.rank@[x],
    {
        let m = self.model();
        if m.root is None {
            assert(m.nodes.dom().contains(x));
        }
        let r = m.root.unwrap().0;
        if x == r {
            assert(ancestor_at(m.parents, x, 0) == Some(r));
        } else {
            assert(m.parents.contains_key(x));
            let px = m.parents[x].0;
            self.lemma_reaches_root(px);
            lemma_subtree_child(m.parents, r, x);
        }
    }

    /// What a well-formed tree guarantees, read off its model. Each stored
    /// node carries its own key; the root, when set, is stored and has no
    /// parent, and without a root the tree is empty; exactly the non-root
    /// nodes have a parent, and every parent is stored; exactly the stored
    /// nodes have a child list; `p` lists `c` among its children exactly when
    /// `p` is the parent of `c`; no child list repeats an identifier; no node
    /// is an ancestor of its own parent, so there are no cycles; and following
    /// parents from any stored node reaches the root.
    pub proof fn lemma_wf_facts(&self)
        requires
            self.wf(),
        ensures
            forall|k: u64| #[trigger]
                self.model().nodes.contains_key(k) ==> self.model().nodes[k].id.0 == k,
            self.model().root matches Some(r) ==> self.model().nodes.contains_key(r.0)
                && !self.model().parents.contains_key(r.0),
            self.model().root is None ==> self.model().nodes.dom().is_empty(),
            forall|k: u64| #[trigger]
                self.model().parents.contains_key(k) <==> (self.model().nodes.contains_key(k)
                    && self.model().root != Some(AccessibleId(k))),
            forall|k: u64| #[trigger]
                self.model().parents.contains_key(k) ==> self.model().nodes.contains_key(
                    self.model().parents[k].0,
                ),
            forall|k: u64| #[trigger]
                self.model().children.contains_key(k) <==> self.model().nodes.contains_key(k),
            forall|p: u64, c: AccessibleId|
                self.model().children.contains_key(p) ==> (#[trigger] self.model().children[p].contains(c)
                    <==> (self.model().parents.contains_key(c.0) && self.model().parents[c.0]
                    == AccessibleId(p))),
            forall|p: u64| #[trigger]
                self.model().children.contains_key(p) ==> self.model().children[p].no_duplicates(),
            forall|x: u64| #[trigger]
                self.model().parents.contains_key(x) ==> !in_subtree(
                    self.model().parents,
                    x,
                    self.model().parents[x].0,
                ),
            forall|x: u64| #[trigger]
                self.model().nodes.contains_key(x) ==> self.model().root is Some && in_subtree(
                    self.model().parents,
                    self.model().root.unwrap().0,
                    x,
                ),
    {
        let m = self.model();
        assert(ranked(m.parents, self.rank@));
        assert forall|p: u64, c: AccessibleId|
            m.children.contains_key(p) implies (#[trigger] m.children[p].contains(c) <==> (
            m.parents.contains_key(c.0) && m.parents[c.0] == AccessibleId(p))) by {
            if m.children[p].contains(c) {
                let i = choose|i: int| 0 <= i < m.children[p].len() && m.children[p][i] == c;
                assert(self.children@[p]@[i] == c);
            }
            if m.parents.contains_key(c.0) && m.parents[c.0] == AccessibleId(p) {
                assert(self.children@[self.parents@[c.0].0]@.contains(AccessibleId(c.0)));
            }
        }
        assert forall|x: u64| #[trigger] m.parents.contains_key(x) implies !in_subtree(
            m.parents,
            x,
            m.parents[x].0,
        ) by {
            let px = m.parents[x].0;
            if in_subtree(m.parents, x, px) {
                let k = choose|k: nat| ancestor_at(m.parents, px, k) == Some(x);
                lemma_ancestor_rank(m.parents, self.rank@, px, k, x);
            }
        }
        assert forall|x: u64| #[trigger] m.nodes.contains_key(x) implies m.root is Some
            && in_subtree(m.parents, m.root.unwrap().0, x) by {
            self.lemma_reaches_root(x);
        }
    }

    /// Creates an empty tree.
    pub fn new() -> (r: Self)
        ensures
            r.wf(),
            r.model().root is None,
            r.model().nodes == Map::<u64, AccessibleNode>::empty(),
            r.model().parents == Map::<u64, AccessibleId>::empty(),
            r.model().children == Map::<u64, Seq<AccessibleId>>::empty(),
    {
        let r = AccessibleTree {
            root: None,
            nodes: HashMap::new(),
            parents: HashMap::new(),
            children: HashMap::new(),
            rank: Ghost(Map::empty()),
        };
        assert(r.model().children =~= Map::<u64, Seq<AccessibleId>>::empty());
        r
    }

    /// The root identifier, if a root was set.
    pub fn root(&self) -> (r: Option<AccessibleId>)
        ensures
            r == self.model().root,
    {
        self.root
    }

    /// The node with identifier `id`, if present.
    pub fn node(&self, id: AccessibleId) -> (r: Option<&AccessibleNode>)
        ensures
            match r {
                Some(n) => self.model().nodes.contains_key(id.0) && *n == self.model().nodes[id.0],
                None => !self.model().nodes.contains_key(id.0),
            },
    {
        self.nodes.get(&id.0)
    }

    /// The parent of `id`, or `None` for the root and for unknown identifiers.
    pub fn parent(&self, id: AccessibleId) -> (r: Option<AccessibleId>)
        ensures
            match r {
                Some(p) => self.model().parents.contains_key(id.0) && p == self.model().parents[id.0],
                None => !self.model().parents.contains_key(id.0),
            },
    {
        match self.parents.get(&id.0) {
            Some(p) => Some(*p),
            None => None,
        }
    }

    /// The ordered children of `id`; empty for unknown identifiers.
    pub fn children(&self, id: AccessibleId) -> (r: &[AccessibleId])
        ensures
            self.model().children.contains_key(id.0) ==> r@ == self.model().children[id.0],
            !self.model().children.contains_key(id.0) ==> r@.len() == 0,
    {
        match self.children.get(&id.0) {
            Some(v) => v.as_slice(),
            None => &[],
        }
    }

    /// Installs `node` as the root of an empty tree. Refused, handing the node
    /// back, when a root already exists or the identifier is taken.
    pub fn set_root(&mut self, node: AccessibleNode) -> (r: Result<(), AccessibleNode>)
        requires
            old(self).wf(),
        ensures
            final(self).wf(),
            r is Ok <==> (old(self).model().root is None && !old(self).model().nodes.contains_key(
                node.id.0,
            )),
            r matches Err(n) ==> n == node && final(self).model() == old(self).model(),
            r is Ok ==> final(self).model() == (TreeModel {
                root: Some(node.id),
                nodes: old(self).model().nodes.insert(node.id.0, node),
                parents: old(self).model().parents,
                children: old(self).model().children.insert(node.id.0, Seq::empty()),
            }),
    {
        if self.root.is_some() || self.nodes.contains_key(&node.id.0) {
            return Err(node);
        }
        let ghost old_children = self.model().children;
        let id = node.id;
        self.root = Some(id);
        self.children.insert(id.0, Vec::new());
        self.nodes.insert(id.0, node);
        proof {
            self.rank@ = self.rank@.insert(id.0, 0);
            assert(self.model().children =~= old_children.insert(id.0, Seq::empty()));
            assert(old(self).nodes@.dom().is_empty());
            assert forall|k: u64| #[trigger] self.parents@.contains_key(k) implies false by {
                assert(old(self).parents@.contains_key(k));
            }
        }
        Ok(())
    }

    /// Appends `node` as the last child of `parent`. Refused, handing the node
    /// back, when `parent` is unknown or the identifier is taken.
    pub fn insert(&mut self, parent: AccessibleId, node: AccessibleNode) -> (r: Result<
        (),
        AccessibleNode,
    >)
        requires
            old(self).wf(),
        ensures
            final(self).wf(),
            r is Ok <==> (old(self).model().nodes.contains_key(parent.0)
                && !old(self).model().nodes.contains_key(node.id.0)),
            r matches Err(n) ==> n == node && final(self).model() == old(self).model(),
            r is Ok ==> final(self).model() == (TreeModel {
                root: old(self).model().root,
                nodes: old(self).model().nodes.insert(node.id.0, node),
                parents: old(self).model().parents.insert(node.id.0, parent),
                children: old(self).model().children.insert(
                    parent.0,
                    old(self).model().children[parent.0].push(node.id),
                ).insert(node.id.0, Seq::empty()),
            }),
    {
        if !self.nodes.contains_key(&parent.0) || self.nodes.contains_key(&node.id.0) {
            return Err(node);
        }
        let ghost old_model = self.model();
        let id = node.id;
        let mut siblings = match self.children.remove(&parent.0) {
            Some(v) => v,
            None => Vec::new(),
        };
        let ghost old_siblings = siblings@;
        siblings.push(id);
        self.children.insert(parent.0, siblings);
        self.children.insert(id.0, Vec::new());
        self.parents.insert(id.0, parent);
        self.nodes.insert(id.0, node);
        proof {
            let pr = self.rank@[parent.0];
            self.rank@ = self.rank@.insert(id.0, pr + 1);
            assert(old_siblings == old_model.children[parent.0]);
            assert(self.model().children =~= old_model.children.insert(
                parent.0,
                old_model.children[parent.0].push(id),
            ).insert(id.0, Seq::empty()));
            assert(!old(self).parents@.contains_key(id.0));
            assert(!old(self).rank@.contains_key(id.0));
            // Links of the old tree never mention the new identifier.
            assert forall|p: u64, i: int|
                old(self).children@.contains_key(p) && 0 <= i < old(self).children@[p]@.len()
                    implies #[trigger] old(self).children@[p]@[i] != id by {
                let c = old(self).children@[p]@[i];
                assert(old(self).parents@.contains_key(c.0));
            }
            let ch = self.children@;
            assert forall|p: u64, i: int|
                ch.contains_key(p) && 0 <= i < ch[p]@.len() implies {
                    let c = #[trigger] ch[p]@[i];
                    self.parents@.contains_key(c.0) && self.parents@[c.0].0 == p
                } by {
                if p == parent.0 {
                    if i < old_siblings.len() {
                        assert(ch[p]@[i] == old(self).children@[p]@[i]);
                    }
                } else if p != id.0 {
                    assert(ch[p]@[i] == old(self).children@[p]@[i]);
                }
            }
            assert forall|c: u64| #[trigger]
                self.parents@.contains_key(c) implies ch[self.parents@[c].0]@.contains(
                AccessibleId(c),
            ) by {
                if c == id.0 {
                    assert(ch[parent.0]@[old_siblings.len() as int] == id);
                } else {
                    let pc = old(self).parents@[c].0;
                    assert(old(self).children@[pc]@.contains(AccessibleId(c)));
                    let j = choose|j: int|
                        0 <= j < old(self).children@[pc]@.len() && old(self).children@[pc]@[j]
                            == AccessibleId(c);
                    if pc == parent.0 {
                        assert(ch[pc]@[j] == AccessibleId(c));
                    } else {
                        assert(pc != id.0);
                        assert(ch[pc]@[j] == AccessibleId(c));
                    }
                }
            }
            assert forall|p: u64| #[trigger] ch.contains_key(p) implies ch[p]@.no_duplicates() by {
                if p == parent.0 {
                    assert(old(self).children@[p]@.no_duplicates());
                    assert forall|i: int| 0 <= i < old_siblings.len() implies old_siblings[i]
                        != id by {
                        assert(old_siblings[i] == old(self).children@[p]@[i]);
                    }
                    assert(ch[p]@ == old_siblings.push(id));
                }
            }
        }
        Ok(())
    }

    /// Moves `id` (with its subtree) to the end of `new_parent`'s children.
    /// Refused for the root, for unknown identifiers, and when `new_parent`
    /// lies inside the subtree of `id`, which would close a cycle.
    pub fn reparent(&mut self, id: AccessibleId, new_parent: AccessibleId) -> (r: bool)
        requires
            old(self).wf(),
        ensures
            final(self).wf(),
            r == (old(self).model().root != Some(id) && old(self).model().nodes.contains_key(id.0)
                && old(self).model().nodes.contains_key(new_parent.0) && !in_subtree(
                old(self).model().parents,
                id.0,
                new_parent.0,
            )),
            !r ==> final(self).model() == old(self).model(),
            r ==> final(self).model() == ({
                let m = old(self).model();
                let op = m.parents[id.0].0;
                let c1 = m.children.insert(op, without(m.children[op], id));
                TreeModel {
                    root: m.root,
                    nodes: m.nodes,
                    parents: m.parents.insert(id.0, new_parent),
                    children: c1.insert(new_parent.0, c1[new_parent.0].push(id)),
                }
            }),
    {
        let is_root = match self.root {
            Some(r) => r == id,
            None => true,
        };
        if is_root || !self.nodes.contains_key(&id.0) || !self.nodes.contains_key(&new_parent.0) {
            proof {
                if !is_root {
                    assert(self.root != Some(id));
                }
                if self.root is None {
                    assert(!self.nodes@.contains_key(id.0));
                }
            }
            return false;
        }
        let ghost parents = self.parents@;
        let ghost rank = self.rank@;
        assert(ranked(parents, rank));
        let mut ancestor: Option<AccessibleId> = Some(new_parent);
        let ghost mut steps: nat = 0;
        loop
            invariant_except_break
                self.wf(),
                *self == *old(self),
                parents == self.parents@,
                rank == self.rank@,
                ranked(parents, rank),
                self.nodes@.contains_key(id.0),
                self.nodes@.contains_key(new_parent.0),
                ancestor == match ancestor_at(parents, new_parent.0, steps) {
                    Some(a) => Some(AccessibleId(a)),
                    None => None,
                },
                ancestor matches Some(a) ==> self.nodes@.contains_key(a.0),
                forall|j: nat| j < steps ==> ancestor_at(parents, new_parent.0, j) != Some(id.0),
            ensures
                self.wf(),
                *self == *old(self),
                !in_subtree(parents, id.0, new_parent.0),
            decreases
                match ancestor {
                    Some(a) => rank[a.0] + 1,
                    None => 0,
                },
        {
            match ancestor {
                Some(current) => {
                    if current == id {
                        proof {
                            assert(ancestor_at(parents, new_parent.0, steps) == Some(id.0));
                        }
                        return false;
                    }
                    proof {
                        lemma_ancestor_next(parents, new_parent.0, steps);
                    }
                    ancestor = match self.parents.get(&current.0) {
                        Some(p) => Some(*p),
                        None => None,
                    };
                    proof {
                        steps = steps + 1;
                    }
                },
                None => {
                    proof {
                        assert forall|k: nat|
                            ancestor_at(parents, new_parent.0, k) != Some(id.0) by {
                            if k >= steps {
                                lemma_ancestor_none(parents, new_parent.0, steps, k);
                            }
                        }
                    }
                    break ;
                },
            }
        }
        let old_parent = match self.parents.get(&id.0) {
            Some(p) => *p,
            None => {
                return false;
            },
        };
        let ghost m = self.model();
        let ghost old_ch = self.children@;
        // Detach from the old parent's child list, keeping the order of the others.
        let old_list = match self.children.remove(&old_parent.0) {
            Some(v) => v,
            None => Vec::new(),
        };
        let kept = without_vec(&old_list, id);
        self.children.insert(old_parent.0, kept);
        let mut siblings = match self.children.remove(&new_parent.0) {
            Some(v) => v,
            None => Vec::new(),
        };
        siblings.push(id);
        self.children.insert(new_parent.0, siblings);
        self.parents.insert(id.0, new_parent);
        proof {
            let op = old_parent.0;
            let np = new_parent.0;
            let c1 = m.children.insert(op, without(m.children[op], id));
            assert(self.model().children =~= c1.insert(np, c1[np].push(id)));
            assert(self.model().parents =~= m.parents.insert(id.0, new_parent));
            // Shift the ranks of the moved subtree below the new parent.
            let delta: nat = if rank[np] + 1 > rank[id.0] {
                (rank[np] + 1 - rank[id.0]) as nat
            } else {
                0
            };
            let new_rank = Map::new(
                |k: u64| rank.contains_key(k),
                |k: u64|
                    if in_subtree(parents, id.0, k) {
                        rank[k] + delta
                    } else {
                        rank[k]
                    },
            );
            self.rank@ = new_rank;
            assert(ancestor_at(parents, id.0, 0) == Some(id.0));
            let np_parents = self.parents@;
            assert forall|c: u64| #[trigger]
                np_parents.contains_key(c) implies new_rank[np_parents[c].0] < new_rank[c] by {
                if c == id.0 {
                    assert(!in_subtree(parents, id.0, np));
                } else {
                    assert(parents.contains_key(c));
                    if in_subtree(parents, id.0, c) {
                        lemma_subtree_parent(parents, id.0, c);
                    } else if in_subtree(parents, id.0, parents[c].0) {
                        lemma_subtree_child(parents, id.0, c);
                    }
                }
            }
            let ch = self.children@;
            assert(old_list@ == old_ch[op]@);
            assert(old_ch[op]@.contains(id));
            // Child lists still name exactly the children.
            assert forall|p: u64, i: int|
                ch.contains_key(p) && 0 <= i < ch[p]@.len() implies {
                    let c = #[trigger] ch[p]@[i];
                    np_parents.contains_key(c.0) && np_parents[c.0].0 == p
                } by {
                let c = ch[p]@[i];
                if p == np && i == ch[p]@.len() - 1 {
                } else if p == np {
                    if np == op {
                        assert(kept@.contains(c));
                        lemma_without_contains(old_ch[op]@, id, c);
                        let j = choose|j: int| 0 <= j < old_ch[op]@.len() && old_ch[op]@[j] == c;
                        assert(old_ch[op]@[j] == c);
                    } else {
                        assert(c == old_ch[p]@[i]);
                        assert(c != id);
                    }
                } else if p == op {
                    assert(kept@.contains(c));
                    lemma_without_contains(old_ch[op]@, id, c);
                    let j = choose|j: int| 0 <= j < old_ch[op]@.len() && old_ch[op]@[j] == c;
                    assert(old_ch[op]@[j] == c);
                } else {
                    assert(c == old_ch[p]@[i]);
                    if c == id {
                        assert(parents[id.0].0 == p);
                    }
                }
            }
            assert forall|c: u64| #[trigger]
                np_parents.contains_key(c) implies ch[np_parents[c].0]@.contains(AccessibleId(c)) by {
                let pc = np_parents[c].0;
                if c == id.0 {
                    assert(ch[np]@[ch[np]@.len() - 1] == id);
                } else {
                    assert(old_ch[pc]@.contains(AccessibleId(c)));
                    let w = without(old_ch[op]@, id);
                    lemma_without_contains(old_ch[op]@, id, AccessibleId(c));
                    if pc == np {
                        let base = if np == op {
                            w
                        } else {
                            old_ch[np]@
                        };
                        assert(base.contains(AccessibleId(c)));
                        let j = choose|j: int| 0 <= j < base.len() && base[j] == AccessibleId(c);
                        assert(ch[np]@[j] == AccessibleId(c));
                    }
                }
            }
            assert forall|p: u64| #[trigger] ch.contains_key(p) implies ch[p]@.no_duplicates() by {
                lemma_without_no_duplicates(old_ch[op]@, id);
                if p == np {
                    let base = if np == op {
                        without(old_ch[op]@, id)
                    } else {
                        old_ch[np]@
                    };
                    assert(!base.contains(id)) by {
                        lemma_without_contains(old_ch[op]@, id, id);
                        if np != op && base.contains(id) {
                            let j = choose|j: int| 0 <= j < base.len() && base[j] == id;
                            assert(parents[id.0].0 == np);
                        }
                    }
                    assert forall|a: int, b: int|
                        0 <= a < base.push(id).len() && 0 <= b < base.push(id).len() && a != b
                            implies base.push(id)[a] != base.push(id)[b] by {
                        if a == base.len() {
                            assert(base.contains(base[b]));
                        } else if b == base.len() {
                            assert(base.contains(base[a]));
                        }
                    }
                    assert(ch[p]@ == base.push(id));
                }
            }
        }
        true
    }

    /// Deletes `id` and its entire subtree. Refused for the root and for
    /// unknown identifiers.
    pub fn remove(&mut self, id: AccessibleId) -> (r: bool)
        requires
            old(self).wf(),
        ensures
            final(self).wf(),
            r == (old(self).model().root != Some(id) && old(self).model().nodes.contains_key(id.0)),
            !r ==> final(self).model() == old(self).model(),
            r ==> final(self).model() == ({
                let m = old(self).model();
                let keep = Set::new(|k: u64| !in_subtree(m.parents, id.0, k));
                let op = m.parents[id.0].0;
                TreeModel {
                    root: m.root,
                    nodes: m.nodes.restrict(keep),
                    parents: m.parents.restrict(keep),
                    children: m.children.insert(op, without(m.children[op], id)).restrict(keep),
                }
            }),
    {
        let is_root = match self.root {
            Some(r) => r == id,
            None => false,
        };
        if is_root || !self.nodes.contains_key(&id.0) {
            return false;
        }
        let ghost m = self.model();
        let ghost mp = self.parents@;
        let ghost mc = self.children@;
        let ghost rank = self.rank@;
        assert(ranked(mp, rank));
        assert(mp.contains_key(id.0));
        let ghost op = mp[id.0].0;
        proof {
            assert(ancestor_at(mp, id.0, 0) == Some(id.0));
            if in_subtree(mp, id.0, op) {
                let k = choose|k: nat| ancestor_at(mp, op, k) == Some(id.0);
                lemma_ancestor_rank(mp, rank, op, k, id.0);
            }
        }
        // Detach `id` from its parent's child list.
        let parent = match self.parents.remove(&id.0) {
            Some(p) => p,
            None => {
                return false;
            },
        };
        let old_list = match self.children.remove(&parent.0) {
            Some(v) => v,
            None => Vec::new(),
        };
        let kept = without_vec(&old_list, id);
        self.children.insert(parent.0, kept);
        let ghost c0 = self.children@;
        assert(c0 == mc.insert(op, kept));
        let mut pending: Vec<AccessibleId> = Vec::new();
        pending.push(id);
        proof {
            assert(pending@[0] == id);
            assert forall|x: u64|
                #[trigger] in_subtree(mp, id.0, x) && self.nodes@.contains_key(x) implies exists|
                j: int,
            |
                0 <= j < pending@.len() && self.nodes@.contains_key(pending@[j].0)
                    && #[trigger] in_subtree(mp, pending@[j].0, x) by {
                assert(in_subtree(mp, pending@[0].0, x));
            }
        }
        loop
            invariant_except_break
                mp == m.parents,
                ranked(mp, rank),
                !in_subtree(mp, id.0, op),
                in_subtree(mp, id.0, id.0),
                mp.contains_key(id.0) && mp[id.0].0 == op,
                forall|c: u64| #[trigger] mp.contains_key(c) ==> m.nodes.contains_key(mp[c].0),
                forall|p: u64, i: int|
                    mc.contains_key(p) && 0 <= i < mc[p]@.len() ==> {
                        let c = #[trigger] mc[p]@[i];
                        mp.contains_key(c.0) && mp[c.0].0 == p
                    },
                forall|k: u64| #[trigger] mc.contains_key(k) <==> m.nodes.contains_key(k),
                c0 == mc.insert(op, c0[op]),
                forall|k: u64| #[trigger] rank.contains_key(k) <==> m.nodes.contains_key(k),
                self.root == m.root,
                self.rank@ == rank,
                forall|k: u64| #[trigger]
                    self.nodes@.contains_key(k) ==> m.nodes.contains_key(k) && self.nodes@[k]
                        == m.nodes[k],
                forall|k: u64|
                    m.nodes.contains_key(k) && !self.nodes@.contains_key(k) ==> #[trigger] in_subtree(mp, id.0, k),
                forall|k: u64| #[trigger]
                    self.parents@.contains_key(k) <==> (mp.contains_key(k) && k != id.0
                        && self.nodes@.contains_key(k)),
                forall|k: u64| #[trigger] self.parents@.contains_key(k) ==> self.parents@[k] == mp[k],
                forall|k: u64| #[trigger]
                    self.children@.contains_key(k) <==> self.nodes@.contains_key(k),
                forall|k: u64| #[trigger]
                    self.children@.contains_key(k) ==> self.children@[k] == c0[k],
                forall|j: int| 0 <= j < pending@.len() ==> #[trigger] in_subtree(mp, id.0, pending@[j].0),
                forall|j: int|
                    0 <= j < pending@.len() ==> (#[trigger] pending@[j]).0 == id.0 || (
                    mp.contains_key(pending@[j].0) && !self.nodes@.contains_key(
                        mp[pending@[j].0].0,
                    )),
                forall|k: u64|
                    #[trigger] m.nodes.contains_key(k) && !self.nodes@.contains_key(k) && k != id.0
                        ==> mp.contains_key(k) && !self.nodes@.contains_key(mp[k].0),
                forall|c: u64| #[trigger]
                    mp.contains_key(c) ==> mc[mp[c].0]@.contains(AccessibleId(c)),
                forall|x: u64|
                    #[trigger] in_subtree(mp, id.0, x) && self.nodes@.contains_key(x) ==> exists|j: int|
                        0 <= j < pending@.len() && self.nodes@.contains_key(pending@[j].0)
                            && #[trigger] in_subtree(mp, pending@[j].0, x),
            ensures
                pending@.len() == 0,
                forall|k: u64|
                    m.nodes.contains_key(k) && !self.nodes@.contains_key(k) ==> #[trigger] in_subtree(mp, id.0, k),
                forall|x: u64| #[trigger] in_subtree(mp, id.0, x) ==> !self.nodes@.contains_key(x),
                forall|k: u64| #[trigger]
                    self.nodes@.contains_key(k) ==> m.nodes.contains_key(k) && self.nodes@[k]
                        == m.nodes[k],
                forall|k: u64| #[trigger]
                    self.parents@.contains_key(k) <==> (mp.contains_key(k) && k != id.0
                        && self.nodes@.contains_key(k)),
                forall|k: u64| #[trigger] self.parents@.contains_key(k) ==> self.parents@[k] == mp[k],
                forall|k: u64| #[trigger]
                    self.children@.contains_key(k) <==> self.nodes@.contains_key(k),
                forall|k: u64| #[trigger]
                    self.children@.contains_key(k) ==> self.children@[k] == c0[k],
                self.root == m.root,
                self.rank@ == rank,
            decreases self.nodes@.dom().len(), pending@.len(),
        {
            let ghost before = self.nodes@;
            let ghost pend = pending@;
            match pending.pop() {
                None => {
                    proof {
                        assert forall|x: u64| #[trigger] in_subtree(mp, id.0, x) implies !self.nodes@.contains_key(
                            x,
                        ) by {
                            if self.nodes@.contains_key(x) {
                                let j = choose|j: int|
                                    0 <= j < pending@.len() && self.nodes@.contains_key(
                                        pending@[j].0,
                                    ) && #[trigger] in_subtree(mp, pending@[j].0, x);
                            }
                        }
                    }
                    break ;
                },
                Some(current) => {
                    let ghost in_tree = self.nodes@.contains_key(current.0);
                    assert(pend.last() == current);
                    assert(in_subtree(mp, id.0, current.0));
                    let grandchildren = match self.children.remove(&current.0) {
                        Some(v) => v,
                        None => Vec::new(),
                    };
                    let ghost added = grandchildren@;
                    let mut g = grandchildren;
                    pending.append(&mut g);
                    self.parents.remove(&current.0);
                    self.nodes.remove(&current.0);
                    proof {
                        assert(pending@ == pend.drop_last() + added);
                        if in_tree {
                            assert(current.0 != op);
                            assert(added == mc[current.0]@);
                            assert(self.nodes@.dom() =~= before.dom().remove(current.0));
                        } else {
                            assert(added.len() == 0);
                            assert(self.nodes@ =~= before);
                        }
                        // The pending identifiers stay inside the subtree and below removed parents.
                        assert forall|j: int| 0 <= j < pending@.len() implies #[trigger] in_subtree(mp, id.0, 
                            pending@[j].0,
                        ) && (pending@[j].0 == id.0 || (mp.contains_key(pending@[j].0)
                            && !self.nodes@.contains_key(mp[pending@[j].0].0))) by {
                            if j < pend.len() - 1 {
                                assert(pending@[j] == pend[j]);
                            } else {
                                let i = j - (pend.len() - 1);
                                assert(pending@[j] == added[i]);
                                assert(mc[current.0]@[i] == added[i]);
                                lemma_subtree_child(mp, id.0, added[i].0);
                            }
                        }
                        // Removed nodes other than `id` have removed parents.
                        assert forall|k: u64|
                            #[trigger] m.nodes.contains_key(k) && !self.nodes@.contains_key(k) && k
                                != id.0 implies mp.contains_key(k) && !self.nodes@.contains_key(
                            mp[k].0,
                        ) by {
                            if k == current.0 && in_tree {
                                let j = pend.len() - 1;
                                assert(pend[j] == current);
                            } else {
                                assert(!before.contains_key(k));
                            }
                        }
                        // Every remaining subtree node is still covered by a pending one.
                        assert forall|x: u64|
                            #[trigger] in_subtree(mp, id.0, x) && self.nodes@.contains_key(x) implies exists|j: int|
                                0 <= j < pending@.len() && self.nodes@.contains_key(pending@[j].0)
                                    && #[trigger] in_subtree(mp, pending@[j].0, x) by {
                            assert(before.contains_key(x));
                            let j = choose|j: int|
                                0 <= j < pend.len() && before.contains_key(pend[j].0)
                                    && #[trigger] in_subtree(mp, pend[j].0, x);
                            let a = pend[j].0;
                            if a != current.0 {
                                assert(j < pend.len() - 1);
                                assert(pending@[j] == pend[j]);
                            } else {
                                assert(in_tree);
                                let k = choose|k: nat| ancestor_at(mp, x, k) == Some(a);
                                assert(k > 0);
                                lemma_ancestor_child(mp, x, k, a);
                                let c = ancestor_at(mp, x, (k - 1) as nat)->0;
                                assert(in_subtree(mp, c, x));
                                assert(m.nodes.contains_key(x));
                                lemma_ancestor_in_nodes(mp, m.nodes, x, (k - 1) as nat, c);
                                if c == id.0 {
                                    assert(op == a);
                                }
                                assert(c != id.0);
                                assert(self.nodes@.contains_key(c));
                                assert(mc[a]@.contains(AccessibleId(c))) by {
                                    assert(m.nodes.contains_key(c));
                                }
                                let i = choose|i: int|
                                    0 <= i < mc[a]@.len() && mc[a]@[i] == AccessibleId(c);
                                let jj = pend.len() - 1 + i;
                                assert(pending@[jj] == AccessibleId(c));
                            }
                        }
                    }
                },
            }
        }
        proof {
            let keep = Set::new(|k: u64| !in_subtree(m.parents, id.0, k));
            assert(self.nodes@ =~= m.nodes.restrict(keep));
            assert(self.parents@ =~= m.parents.restrict(keep));
            let cm = m.children.insert(op, without(m.children[op], id));
            assert(self.model().children =~= cm.restrict(keep));
            // The root stays.
            let r = m.root->0;
            if in_subtree(mp, id.0, r.0) {
                lemma_subtree_of_parentless(mp, id.0, r.0);
            }
            self.rank@ = rank.restrict(keep);
            assert(ranked(mp, rank));
            let ch = self.children@;
            let np = self.parents@;
            assert forall|k: u64| #[trigger] np.contains_key(k) implies self.nodes@.contains_key(
                np[k].0,
            ) by {
                if in_subtree(mp, id.0, np[k].0) {
                    lemma_subtree_child(mp, id.0, k);
                }
            }
            assert forall|p: u64, i: int|
                ch.contains_key(p) && 0 <= i < ch[p]@.len() implies {
                    let c = #[trigger] ch[p]@[i];
                    np.contains_key(c.0) && np[c.0].0 == p
                } by {
                let c = ch[p]@[i];
                if p == op {
                    lemma_without_contains(mc[op]@, id, c);
                    assert(without(mc[op]@, id).contains(c));
                    let j = choose|j: int| 0 <= j < mc[op]@.len() && mc[op]@[j] == c;
                    assert(mc[op]@[j] == c);
                } else {
                    assert(mc[p]@[i] == c);
                }
                if in_subtree(mp, id.0, c.0) {
                    if c.0 != id.0 {
                        lemma_subtree_parent(mp, id.0, c.0);
                    }
                }
            }
            assert forall|c: u64| #[trigger]
                np.contains_key(c) implies ch[np[c].0]@.contains(AccessibleId(c)) by {
                let pc = np[c].0;
                assert(mc[pc]@.contains(AccessibleId(c)));
                assert(self.nodes@.contains_key(pc));
                assert(ch.contains_key(pc));
                assert(ch[pc] == c0[pc]);
                if pc == op {
                    lemma_without_contains(mc[op]@, id, AccessibleId(c));
                }
            }
            assert forall|p: u64| #[trigger] ch.contains_key(p) implies ch[p]@.no_duplicates() by {
                assert(ch[p] == c0[p]);
                assert(mc.contains_key(p));
                if p == op {
                    lemma_without_no_duplicates(mc[op]@, id);
                }
            }
        }
        true
    }

    /// Builds a semantic snapshot from a widget hierarchy: one node per widget,
    /// with the hierarchy's parent links, skipping any widget (and its subtree)
    /// whose identifier is already taken.
    pub fn from_widget(root: &WidgetNode) -> (r: Self)
        ensures
            r.wf(),
            model_matches(r.model(), shape_append(empty_shape(), *root, None)),
            r.model().root == Some(AccessibleId(root.id)),
            r.model().nodes.contains_key(root.id),
            node_describes(r.model().nodes[root.id], *root),
    {
        let mut tree = Self::new();
        proof {
            assert(tree.model().nodes.dom() =~= empty_shape().widgets.dom());
        }
        append_widget(&mut tree, root, None, Ghost(empty_shape()));
        proof {
            lemma_shape_keeps_root(empty_shape(), *root);
        }
        tree
    }

    /// Replaces the stored node carrying `node.id`. Refused, handing the node
    /// back, when the identifier is unknown.
    pub fn update(&mut self, node: AccessibleNode) -> (r: Result<(), AccessibleNode>)
        requires
            old(self).wf(),
        ensures
            final(self).wf(),
            r is Ok <==> old(self).model().nodes.contains_key(node.id.0),
            r matches Err(n) ==> n == node && final(self).model() == old(self).model(),
            r is Ok ==> final(self).model() == (TreeModel {
                nodes: old(self).model().nodes.insert(node.id.0, node),
                ..old(self).model()
            }),
    {
        if !self.nodes.contains_key(&node.id.0) {
            return Err(node);
        }
        let id = node.id;
        self.nodes.insert(id.0, node);
        proof {
            assert(self.nodes@.dom() =~= old(self).nodes@.dom());
        }
        Ok(())
    }
}

} // verus!
