//! Actions and action groups (`QAction`, `QActionGroup`).
//!
//! Actions are shared between menus, tool bars and buttons, and a group can
//! make its checkable members mutually exclusive. Here the actions and groups
//! live in one [`ActionSet`] and are addressed by their index in it, so that
//! checking one member of a group can uncheck another.

use vstd::prelude::*;

use crate::action_keys::{mnemonic, mnemonic_char, strip_mnemonic, stripped};
use crate::key_sequence::{KeyCombination, KeySequence};
use crate::text::{char_uppercase, str_to_string};

verus! {

/// Kind of activation delivered to an action (`QAction::ActionEvent`).
#[derive(Debug, Clone, Copy, PartialEq, Eq, Structural)]
pub enum ActionEvent {
    Trigger,
    Hover,
}

/// Exclusivity policy of an action group (`QActionGroup::ExclusionPolicy`).
#[derive(Debug, Clone, Copy, PartialEq, Eq, Structural)]
pub enum ExclusionPolicy {
    /// Actions are independent.
    NonExclusive,
    /// Exactly one checkable action can be checked; the checked one cannot be
    /// unchecked by triggering it.
    Exclusive,
    /// At most one action can be checked; the checked one can be unchecked.
    ExclusiveOptional,
}

impl Default for ExclusionPolicy {
    fn default() -> (r: ExclusionPolicy)
        ensures
            r == ExclusionPolicy::Exclusive,
    {
        ExclusionPolicy::Exclusive
    }
}

/// One action as plain values.
pub struct ActionView {
    pub text: Seq<char>,
    pub icon_text: Seq<char>,
    pub tool_tip: Seq<char>,
    pub status_tip: Seq<char>,
    pub shortcut: Seq<KeyCombination>,
    pub checkable: bool,
    pub checked: bool,
    pub enabled: bool,
    pub visible: bool,
    pub separator: bool,
    /// The group the action belongs to, by index.
    pub group: Option<usize>,
    /// User data attached to the action.
    pub data: Option<u64>,
    /// The sub-menu the action opens, by identifier.
    pub menu: Option<u64>,
}

/// One action group as plain values.
pub struct GroupView {
    /// The member actions, by index, in the order they were added.
    pub members: Seq<usize>,
    /// The checked member that exclusivity tracks.
    pub current: Option<usize>,
    pub exclusion: ExclusionPolicy,
    pub enabled: bool,
    pub visible: bool,
}

/// All actions and groups as plain values.
pub struct ActionSetView {
    pub actions: Seq<ActionView>,
    pub groups: Seq<GroupView>,
}

/// An abstract user command that can be placed in menus and tool bars (`QAction`).
pub struct Action {
    text: String,
    icon_text: String,
    tool_tip: String,
    status_tip: String,
    shortcut: KeySequence,
    checkable: bool,
    checked: bool,
    enabled: bool,
    visible: bool,
    separator: bool,
    group: Option<usize>,
    data: Option<u64>,
    menu: Option<u64>,
}

impl View for Action {
    type V = ActionView;

    closed spec fn view(&self) -> ActionView {
        ActionView {
            text: self.text@,
            icon_text: self.icon_text@,
            tool_tip: self.tool_tip@,
            status_tip: self.status_tip@,
            shortcut: self.shortcut@,
            checkable: self.checkable,
            checked: self.checked,
            enabled: self.enabled,
            visible: self.visible,
            separator: self.separator,
            group: self.group,
            data: self.data,
            menu: self.menu,
        }
    }
}

/// Groups actions together, optionally making them mutually exclusive (`QActionGroup`).
pub struct ActionGroup {
    members: Vec<usize>,
    current: Option<usize>,
    exclusion: ExclusionPolicy,
    enabled: bool,
    visible: bool,
}

impl View for ActionGroup {
    type V = GroupView;

    closed spec fn view(&self) -> GroupView {
        GroupView {
            members: self.members@,
            current: self.current,
            exclusion: self.exclusion,
            enabled: self.enabled,
            visible: self.visible,
        }
    }
}

/// A new action with `text`: enabled, visible, neither checkable nor checked,
/// not a separator, in no group, with empty secondary texts and shortcut,
/// without data or sub-menu.
pub open spec fn fresh_action(text: Seq<char>) -> ActionView {
    ActionView {
        text,
        icon_text: Seq::empty(),
        tool_tip: Seq::empty(),
        status_tip: Seq::empty(),
        shortcut: Seq::empty(),
        checkable: false,
        checked: false,
        enabled: true,
        visible: true,
        separator: false,
        group: None,
        data: None,
        menu: None,
    }
}

/// A new group: exclusive, enabled, visible, without members.
pub open spec fn fresh_group() -> GroupView {
    GroupView {
        members: Seq::empty(),
        current: None,
        exclusion: ExclusionPolicy::Exclusive,
        enabled: true,
        visible: true,
    }
}

/// The well-formed states: group links point both ways, members occur once,
/// the tracked member is a member, and only checkable actions are checked.
pub open spec fn set_wf(v: ActionSetView) -> bool {
    &&& v.actions.len() <= usize::MAX
    &&& v.groups.len() <= usize::MAX
    &&& forall|a: int|
        0 <= a < v.actions.len() ==> (#[trigger] v.actions[a]).checked ==> v.actions[a].checkable
    &&& forall|a: int|
        0 <= a < v.actions.len() ==> match (#[trigger] v.actions[a]).group {
            Some(g) => g < v.groups.len() && v.groups[g as int].members.contains(a as usize),
            None => true,
        }
    &&& forall|g: int, m: usize|
        0 <= g < v.groups.len() && #[trigger] v.groups[g].members.contains(m) ==> m < v.actions.len()
            && v.actions[m as int].group == Some(g as usize)
    &&& forall|g: int| 0 <= g < v.groups.len() ==> (#[trigger] v.groups[g]).members.no_duplicates()
    &&& forall|g: int|
        0 <= g < v.groups.len() ==> match (#[trigger] v.groups[g]).current {
            Some(c) => v.groups[g].members.contains(c),
            None => true,
        }
}

/// In the exclusive group `g`, the checked members are exactly the tracked one.
pub open spec fn exclusive_consistent(v: ActionSetView, g: int) -> bool {
    v.groups[g].exclusion != ExclusionPolicy::NonExclusive ==> forall|m: usize|
        #[trigger] v.groups[g].members.contains(m) ==> (v.actions[m as int].checked
            <==> v.groups[g].current == Some(m))
}

/// `v` with the checked flag of action `a` set to `x`, and nothing else.
pub open spec fn with_checked(v: ActionSetView, a: int, x: bool) -> ActionSetView {
    ActionSetView { actions: v.actions.update(a, ActionView { checked: x, ..v.actions[a] }), ..v }
}

/// `v` with the tracked member of group `g` set to `c`, and nothing else.
pub open spec fn with_current(v: ActionSetView, g: int, c: Option<usize>) -> ActionSetView {
    ActionSetView { groups: v.groups.update(g, GroupView { current: c, ..v.groups[g] }), ..v }
}

/// A checked, checkable action `p` unchecked by its group, without further effect.
pub open spec fn uncheck_member(v: ActionSetView, p: int) -> ActionSetView {
    if v.actions[p].checkable && v.actions[p].checked {
        with_checked(v, p, false)
    } else {
        v
    }
}

/// What group `g` does when its member `a` becomes checked (`x`) or unchecked:
/// nothing without exclusivity; otherwise a newly checked member becomes the
/// tracked one and the previously tracked member is unchecked, and an unchecked
/// tracked member is no longer tracked.
pub open spec fn group_check_changed(v: ActionSetView, g: int, a: usize, x: bool) -> ActionSetView {
    let grp = v.groups[g];
    if grp.exclusion == ExclusionPolicy::NonExclusive {
        v
    } else if x {
        let v2 = with_current(v, g, Some(a));
        match grp.current {
            Some(p) => if p != a {
                uncheck_member(v2, p as int)
            } else {
                v2
            },
            None => v2,
        }
    } else if grp.current == Some(a) {
        with_current(v, g, None)
    } else {
        v
    }
}

/// `QAction::setChecked` on action `a`: ignored unless the action is checkable
/// and the state changes; then the action's group reacts.
pub open spec fn spec_set_checked(v: ActionSetView, a: int, x: bool) -> ActionSetView {
    let act = v.actions[a];
    if !act.checkable || act.checked == x {
        v
    } else {
        let v1 = with_checked(v, a, x);
        match act.group {
            Some(g) => group_check_changed(v1, g as int, a as usize, x),
            None => v1,
        }
    }
}

/// Whether action `a` and its group, if any, are enabled.
pub open spec fn effectively_enabled(v: ActionSetView, a: int) -> bool {
    v.actions[a].enabled && match v.actions[a].group {
        Some(g) => v.groups[g as int].enabled,
        None => true,
    }
}

/// Whether action `a` and its group, if any, are visible.
pub open spec fn effectively_visible(v: ActionSetView, a: int) -> bool {
    v.actions[a].visible && match v.actions[a].group {
        Some(g) => v.groups[g as int].visible,
        None => true,
    }
}

/// Whether triggering checked action `a` leaves it checked: it is the tracked
/// member of a group with the `Exclusive` policy.
pub open spec fn trigger_locked(v: ActionSetView, a: int) -> bool {
    v.actions[a].checked && match v.actions[a].group {
        Some(g) => v.groups[g as int].exclusion == ExclusionPolicy::Exclusive && v.groups[g as int].current
            == Some(a as usize),
        None => false,
    }
}

/// The state after triggering action `a` (`QAction::trigger`): a disabled
/// action ignores it; a checkable one toggles unless it is locked.
pub open spec fn spec_trigger(v: ActionSetView, a: int) -> ActionSetView {
    if !effectively_enabled(v, a) || !v.actions[a].checkable || trigger_locked(v, a) {
        v
    } else {
        spec_set_checked(v, a, !v.actions[a].checked)
    }
}

/// Triggering a checkable action toggles it, unless it is the tracked,
/// checked member of an `Exclusive` group.
pub open spec fn trigger_toggles(v: ActionSetView, a: int) -> bool {
    effectively_enabled(v, a) && v.actions[a].checkable && !trigger_locked(v, a)
}

/// `s` without the occurrences of `x`.
pub open spec fn drop_member(s: Seq<usize>, x: usize) -> Seq<usize>
    decreases s.len(),
{
    if s.len() == 0 {
        s
    } else if s.last() == x {
        drop_member(s.drop_last(), x)
    } else {
        drop_member(s.drop_last(), x).push(s.last())
    }
}

/// Group `h` without member `a`, no longer tracking it.
pub open spec fn detach(v: ActionSetView, h: int, a: usize) -> ActionSetView {
    let grp = v.groups[h];
    ActionSetView {
        groups: v.groups.update(
            h,
            GroupView {
                members: drop_member(grp.members, a),
                current: if grp.current == Some(a) {
                    None
                } else {
                    grp.current
                },
                ..grp
            },
        ),
        ..v
    }
}

/// `v` with action `a` linked to group `g` (or to none), and nothing else.
pub open spec fn with_group(v: ActionSetView, a: int, g: Option<usize>) -> ActionSetView {
    ActionSetView { actions: v.actions.update(a, ActionView { group: g, ..v.actions[a] }), ..v }
}

/// `v` with action `a` appended to the members of group `g` and linked to it.
pub open spec fn attach(v: ActionSetView, g: int, a: int) -> ActionSetView {
    ActionSetView {
        actions: v.actions.update(a, ActionView { group: Some(g as usize), ..v.actions[a] }),
        groups: v.groups.update(
            g,
            GroupView { members: v.groups[g].members.push(a as usize), ..v.groups[g] },
        ),
    }
}

/// `QActionGroup::addAction`: action `a` leaves its previous group and joins
/// `g` at the end; a checked action then counts as checked in `g`. Adding a
/// member again changes nothing.
pub open spec fn spec_group_add(v: ActionSetView, g: int, a: int) -> ActionSetView {
    let act = v.actions[a];
    if act.group == Some(g as usize) {
        v
    } else {
        let v1 = match act.group {
            Some(h) => spec_group_remove(v, h as int, a),
            None => v,
        };
        let v2 = attach(v1, g, a);
        if act.checked {
            group_check_changed(v2, g, a as usize, true)
        } else {
            v2
        }
    }
}

/// `QActionGroup::removeAction`: a member leaves the group; other actions are
/// not affected.
pub open spec fn spec_group_remove(v: ActionSetView, g: int, a: int) -> ActionSetView {
    if v.actions[a].group == Some(g as usize) {
        with_group(detach(v, g, a as usize), a, None)
    } else {
        v
    }
}

/// `QAction::setCheckable`: an action that stops being checkable is unchecked first.
pub open spec fn spec_set_checkable(v: ActionSetView, a: int, b: bool) -> ActionSetView {
    let act = v.actions[a];
    if act.checkable == b {
        v
    } else {
        let v1 = if !b && act.checked {
            spec_set_checked(v, a, false)
        } else {
            v
        };
        ActionSetView {
            actions: v1.actions.update(a, ActionView { checkable: b, ..v1.actions[a] }),
            ..v1
        }
    }
}

/// Members left after dropping `x` are those other than `x`, each still once.
proof fn lemma_drop_member(s: Seq<usize>, x: usize)
    ensures
        forall|y: usize| #[trigger] drop_member(s, x).contains(y) <==> (s.contains(y) && y != x),
        s.no_duplicates() ==> drop_member(s, x).no_duplicates(),
    decreases s.len(),
{
    if s.len() > 0 {
        let t = s.drop_last();
        lemma_drop_member(t, x);
        let d = drop_member(t, x);
        assert forall|y: usize| #[trigger] drop_member(s, x).contains(y) <==> (s.contains(y) && y
            != x) by {
            if s.contains(y) && y != x {
                let i = choose|i: int| 0 <= i < s.len() && s[i] == y;
                if i < s.len() - 1 {
                    assert(t[i] == y);
                    assert(t.contains(y));
                    assert(d.contains(y));
                    let k = choose|k: int| 0 <= k < d.len() && d[k] == y;
                    if s.last() != x {
                        assert(d.push(s.last())[k] == y);
                    }
                } else {
                    assert(s.last() == y);
                    assert(d.push(s.last())[d.len() as int] == y);
                }
            }
            if drop_member(s, x).contains(y) {
                if s.last() != x && y == s.last() {
                    assert(s[s.len() - 1] == y);
                } else {
                    if s.last() != x {
                        let i = choose|i: int| 0 <= i < d.push(s.last()).len() && d.push(s.last())[i] == y;
                        assert(d[i] == y);
                    }
                    assert(d.contains(y));
                    let k = choose|k: int| 0 <= k < t.len() && t[k] == y;
                    assert(s[k] == y);
                }
            }
        }
        if s.no_duplicates() {
            assert(t.no_duplicates()) by {
                assert forall|i: int, j: int| 0 <= i < t.len() && 0 <= j < t.len() && i != j implies t[i]
                    != t[j] by {
                    assert(s[i] == t[i] && s[j] == t[j]);
                }
            }
            if s.last() != x {
                assert(!d.contains(s.last())) by {
                    if t.contains(s.last()) {
                        let k = choose|k: int| 0 <= k < t.len() && t[k] == s.last();
                        assert(s[k] == s[s.len() - 1]);
                    }
                }
                assert forall|i: int, j: int|
                    0 <= i < d.push(s.last()).len() && 0 <= j < d.push(s.last()).len() && i != j implies d.push(
                    s.last(),
                )[i] != d.push(s.last())[j] by {
                    if i < d.len() && j < d.len() {
                    } else if i < d.len() {
                        assert(d.contains(d[i]));
                    } else if j < d.len() {
                        assert(d.contains(d[j]));
                    }
                }
            }
        }
    }
}

/// `w` differs from `v` at most in checked flags and tracked members.
pub open spec fn only_checks_changed(v: ActionSetView, w: ActionSetView) -> bool {
    &&& w.actions.len() == v.actions.len()
    &&& w.groups.len() == v.groups.len()
    &&& forall|g: int|
        0 <= g < v.groups.len() ==> (#[trigger] w.groups[g]) == GroupView {
            current: w.groups[g].current,
            ..v.groups[g]
        }
    &&& forall|b: int|
        0 <= b < v.actions.len() ==> (#[trigger] w.actions[b]) == ActionView {
            checked: w.actions[b].checked,
            ..v.actions[b]
        }
}

/// How `w`, the state after `QAction::setChecked(x)` on the checkable action
/// `a` whose state changes, relates to `v` beyond `a` itself: in an exclusive
/// group, `a` becomes the tracked member when checked and the previously
/// tracked member is unchecked; otherwise only `a` changes.
pub open spec fn set_checked_effect(v: ActionSetView, w: ActionSetView, a: int, x: bool) -> bool {
    match v.actions[a].group {
        Some(g0) => if v.groups[g0 as int].exclusion != ExclusionPolicy::NonExclusive {
            let cur = v.groups[g0 as int].current;
            &&& w.groups[g0 as int].current == if x {
                Some(a as usize)
            } else if cur == Some(a as usize) {
                None
            } else {
                cur
            }
            &&& forall|b: int|
                0 <= b < v.actions.len() && b != a ==> #[trigger] w.actions[b].checked == if x && cur
                    == Some(b as usize) {
                    false
                } else {
                    v.actions[b].checked
                }
        } else {
            unchanged_except(v, w, a)
        },
        None => unchanged_except(v, w, a),
    }
}

/// No group and no action but `a` has changed its checked flag or tracked member.
pub open spec fn unchanged_except(v: ActionSetView, w: ActionSetView, a: int) -> bool {
    &&& forall|g: int| 0 <= g < v.groups.len() ==> (#[trigger] w.groups[g]) == v.groups[g]
    &&& forall|b: int|
        0 <= b < v.actions.len() && b != a ==> #[trigger] w.actions[b].checked == v.actions[b].checked
}

/// The flags and tracked members after `QAction::setChecked` on a
/// checkable action whose state changes.
proof fn lemma_set_checked_effect(v: ActionSetView, a: int, x: bool)
    requires
        set_wf(v),
        0 <= a < v.actions.len(),
        v.actions[a].checkable,
        v.actions[a].checked != x,
    ensures
        only_checks_changed(v, spec_set_checked(v, a, x)),
        spec_set_checked(v, a, x).actions[a].checked == x,
        forall|g: int|
            0 <= g < v.groups.len() && v.actions[a].group != Some(g as usize) ==> (#[trigger] spec_set_checked(
                v,
                a,
                x,
            ).groups[g]) == v.groups[g],
        set_checked_effect(v, spec_set_checked(v, a, x), a, x),
{
    let w = spec_set_checked(v, a, x);
    let v1 = with_checked(v, a, x);
    match v.actions[a].group {
        Some(g0) => {
            let grp = v1.groups[g0 as int];
            if grp.exclusion != ExclusionPolicy::NonExclusive && x {
                match grp.current {
                    Some(p) => {
                        assert(grp.members.contains(p));
                        assert(v.actions[p as int].group == Some(g0));
                        if p != a as usize {
                            assert(v.actions[p as int].checked ==> v.actions[p as int].checkable);
                        }
                    },
                    None => {},
                }
            }
        },
        None => {},
    }
}

/// Checking or unchecking an action keeps the set well formed and changes
/// only checked flags and tracked members.
pub proof fn lemma_set_checked_wf(v: ActionSetView, a: int, x: bool)
    requires
        set_wf(v),
        0 <= a < v.actions.len(),
    ensures
        set_wf(spec_set_checked(v, a, x)),
        only_checks_changed(v, spec_set_checked(v, a, x)),
{
    let w = spec_set_checked(v, a, x);
    if v.actions[a].checkable && v.actions[a].checked != x {
        lemma_set_checked_effect(v, a, x);
        lemma_only_checks_wf(v, w);
    }
}

/// A state that differs from a well-formed one only in checked flags of
/// checkable actions and in tracked members that are members is well formed.
proof fn lemma_only_checks_wf(v: ActionSetView, w: ActionSetView)
    requires
        set_wf(v),
        only_checks_changed(v, w),
        forall|b: int| 0 <= b < w.actions.len() && (#[trigger] w.actions[b]).checked ==> w.actions[b].checkable,
        forall|g: int|
            0 <= g < w.groups.len() ==> match (#[trigger] w.groups[g]).current {
                Some(c) => w.groups[g].members.contains(c),
                None => true,
            },
    ensures
        set_wf(w),
{
    assert forall|g: int| 0 <= g < w.groups.len() implies (#[trigger] w.groups[g]).members.no_duplicates() by {
        assert(w.groups[g].members == v.groups[g].members);
    }
    assert forall|g: int, m: usize|
        0 <= g < w.groups.len() && #[trigger] w.groups[g].members.contains(m) implies m < w.actions.len()
            && w.actions[m as int].group == Some(g as usize) by {
        assert(w.groups[g].members == v.groups[g].members);
        assert(v.groups[g].members.contains(m));
        assert(w.actions[m as int].group == v.actions[m as int].group);
    }
    assert forall|b: int| 0 <= b < w.actions.len() implies match (#[trigger] w.actions[b]).group {
        Some(g) => g < w.groups.len() && w.groups[g as int].members.contains(b as usize),
        None => true,
    } by {
        assert(v.actions[b].group == w.actions[b].group);
        match v.actions[b].group {
            Some(g) => {
                assert(w.groups[g as int].members == v.groups[g as int].members);
            },
            None => {},
        }
    }
}

/// In an exclusive group in which exactly the tracked member is checked,
/// checking or unchecking any action keeps that so.
pub proof fn lemma_set_checked_consistent(v: ActionSetView, a: int, x: bool, g: int)
    requires
        set_wf(v),
        0 <= a < v.actions.len(),
        0 <= g < v.groups.len(),
        exclusive_consistent(v, g),
    ensures
        exclusive_consistent(spec_set_checked(v, a, x), g),
{
    let w = spec_set_checked(v, a, x);
    if v.actions[a].checkable && v.actions[a].checked != x {
        lemma_set_checked_effect(v, a, x);
        if w.groups[g].exclusion != ExclusionPolicy::NonExclusive {
            assert forall|m: usize| #[trigger] w.groups[g].members.contains(m) implies (w.actions[m as int].checked
                <==> w.groups[g].current == Some(m)) by {
                assert(w.groups[g].members == v.groups[g].members);
                assert(v.groups[g].members.contains(m));
                assert(v.actions[m as int].group == Some(g as usize));
                if let Some(g0) = v.actions[a].group {
                    if let Some(p) = v.groups[g0 as int].current {
                        assert(v.groups[g0 as int].members.contains(p));
                        assert(v.actions[p as int].group == Some(g0));
                    }
                    if g0 as int == g && m as int == a && !x {
                        assert(v.actions[a].checked);
                    }
                }
            }
        }
    }
}

/// Removing action `a` from group `g` keeps the set well formed, keeps every
/// checked flag, and keeps every exclusive group in which exactly the tracked
/// member was checked that way.
pub proof fn lemma_group_remove(v: ActionSetView, g: int, a: int)
    requires
        set_wf(v),
        0 <= a < v.actions.len(),
        0 <= g < v.groups.len(),
    ensures
        set_wf(spec_group_remove(v, g, a)),
        spec_group_remove(v, g, a).actions.len() == v.actions.len(),
        spec_group_remove(v, g, a).groups.len() == v.groups.len(),
        spec_group_remove(v, g, a).actions[a].group == (if v.actions[a].group == Some(g as usize) {
            None
        } else {
            v.actions[a].group
        }),
        forall|b: int|
            0 <= b < v.actions.len() ==> (#[trigger] spec_group_remove(v, g, a).actions[b]) == (ActionView {
                group: spec_group_remove(v, g, a).actions[b].group,
                ..v.actions[b]
            }),
        forall|b: int|
            0 <= b < v.actions.len() && b != a ==> (#[trigger] spec_group_remove(v, g, a).actions[b])
                == v.actions[b],
        forall|h: int|
            0 <= h < v.groups.len() && h != g ==> (#[trigger] spec_group_remove(v, g, a).groups[h])
                == v.groups[h],
        forall|h: int|
            0 <= h < v.groups.len() ==> (#[trigger] spec_group_remove(v, g, a).groups[h]).exclusion
                == v.groups[h].exclusion,
        forall|h: int|
            0 <= h < v.groups.len() && exclusive_consistent(v, h) ==> #[trigger] exclusive_consistent(
                spec_group_remove(v, g, a),
                h,
            ),
{
    let w = spec_group_remove(v, g, a);
    if v.actions[a].group == Some(g as usize) {
        let old_members = v.groups[g].members;
        lemma_drop_member(old_members, a as usize);
        assert(w.groups[g].members == drop_member(old_members, a as usize));
        assert forall|h: int| 0 <= h < w.groups.len() implies (#[trigger] w.groups[h]).members.no_duplicates() by {
            if h != g {
                assert(w.groups[h] == v.groups[h]);
            }
        }
        assert forall|h: int, m: usize|
            0 <= h < w.groups.len() && #[trigger] w.groups[h].members.contains(m) implies m < w.actions.len()
                && w.actions[m as int].group == Some(h as usize) by {
            if h != g {
                assert(w.groups[h] == v.groups[h]);
                assert(v.groups[h].members.contains(m));
                if m as int == a {
                    assert(v.actions[a].group == Some(h as usize));
                }
            } else {
                assert(old_members.contains(m));
            }
        }
        assert forall|b: int| 0 <= b < w.actions.len() implies match (#[trigger] w.actions[b]).group {
            Some(h) => h < w.groups.len() && w.groups[h as int].members.contains(b as usize),
            None => true,
        } by {
            if b != a {
                match v.actions[b].group {
                    Some(h) => {
                        assert(v.groups[h as int].members.contains(b as usize));
                        if h as int == g {
                            assert(w.groups[g].members.contains(b as usize));
                        } else {
                            assert(w.groups[h as int] == v.groups[h as int]);
                        }
                    },
                    None => {},
                }
            }
        }
        assert forall|h: int| 0 <= h < w.groups.len() implies match (#[trigger] w.groups[h]).current {
            Some(c) => w.groups[h].members.contains(c),
            None => true,
        } by {
            if h != g {
                assert(w.groups[h] == v.groups[h]);
            } else {
                if let Some(c) = v.groups[g].current {
                    assert(old_members.contains(c));
                }
            }
        }
        assert forall|h: int| 0 <= h < v.groups.len() && exclusive_consistent(v, h) implies #[trigger] exclusive_consistent(w, h) by {
            if h != g {
                assert(w.groups[h] == v.groups[h]);
                if w.groups[h].exclusion != ExclusionPolicy::NonExclusive {
                    assert forall|m: usize| #[trigger] w.groups[h].members.contains(m) implies (w.actions[m as int].checked
                        <==> w.groups[h].current == Some(m)) by {
                        assert(v.groups[h].members.contains(m));
                    }
                }
            } else if w.groups[h].exclusion != ExclusionPolicy::NonExclusive {
                assert forall|m: usize| #[trigger] w.groups[h].members.contains(m) implies (w.actions[m as int].checked
                    <==> w.groups[h].current == Some(m)) by {
                    assert(old_members.contains(m));
                    assert(v.groups[h].members.contains(m));
                }
            }
        }
    }
}

/// Appending an action without a group to group `g` keeps the set well formed
/// and every checked flag; an unchecked newcomer keeps `g` consistent.
proof fn lemma_attach(v: ActionSetView, g: int, a: int)
    requires
        set_wf(v),
        0 <= a < v.actions.len(),
        0 <= g < v.groups.len(),
        v.actions[a].group is None,
    ensures
        set_wf(attach(v, g, a)),
        forall|h: int|
            0 <= h < v.groups.len() && exclusive_consistent(v, h) && (h != g || !v.actions[a].checked)
                ==> #[trigger] exclusive_consistent(attach(v, g, a), h),
{
    let w = attach(v, g, a);
    let old_members = v.groups[g].members;
    assert(!old_members.contains(a as usize)) by {
        if old_members.contains(a as usize) {
            assert(v.actions[a].group == Some(g as usize));
        }
    }
    assert forall|h: int| 0 <= h < w.groups.len() implies (#[trigger] w.groups[h]).members.no_duplicates() by {
        if h == g {
            let ms = old_members.push(a as usize);
            assert forall|i: int, j: int| 0 <= i < ms.len() && 0 <= j < ms.len() && i != j implies ms[i]
                != ms[j] by {
                if i < old_members.len() && j < old_members.len() {
                } else if i < old_members.len() {
                    assert(old_members.contains(ms[i]));
                } else {
                    assert(old_members.contains(ms[j]));
                }
            }
        }
    }
    assert forall|h: int, m: usize|
        0 <= h < w.groups.len() && #[trigger] w.groups[h].members.contains(m) implies m < w.actions.len()
            && w.actions[m as int].group == Some(h as usize) by {
        if h == g && m == a as usize {
        } else if h == g {
            let i = choose|i: int| 0 <= i < w.groups[h].members.len() && w.groups[h].members[i] == m;
            if i < old_members.len() {
                assert(old_members[i] == m);
                assert(old_members.contains(m));
            }
        } else {
            assert(v.groups[h].members.contains(m));
            if m as int == a {
                assert(v.actions[a].group == Some(h as usize));
            }
        }
    }
    assert forall|b: int| 0 <= b < w.actions.len() implies match (#[trigger] w.actions[b]).group {
        Some(h) => h < w.groups.len() && w.groups[h as int].members.contains(b as usize),
        None => true,
    } by {
        if b == a {
            assert(w.groups[g].members[old_members.len() as int] == a as usize);
        } else {
            match v.actions[b].group {
                Some(h) => {
                    assert(v.groups[h as int].members.contains(b as usize));
                    if h as int == g {
                        let i = choose|i: int| 0 <= i < old_members.len() && old_members[i] == b as usize;
                        assert(w.groups[g].members[i] == b as usize);
                    }
                },
                None => {},
            }
        }
    }
    assert forall|h: int| 0 <= h < w.groups.len() implies match (#[trigger] w.groups[h]).current {
        Some(c) => w.groups[h].members.contains(c),
        None => true,
    } by {
        if h == g {
            if let Some(c) = v.groups[g].current {
                let i = choose|i: int| 0 <= i < old_members.len() && old_members[i] == c;
                assert(w.groups[g].members[i] == c);
            }
        }
    }
    assert forall|h: int|
        0 <= h < v.groups.len() && exclusive_consistent(v, h) && (h != g || !v.actions[a].checked)
        implies #[trigger] exclusive_consistent(w, h) by {
        if w.groups[h].exclusion != ExclusionPolicy::NonExclusive {
            assert forall|m: usize| #[trigger] w.groups[h].members.contains(m) implies (w.actions[m as int].checked
                <==> w.groups[h].current == Some(m)) by {
                if h == g && m == a as usize {
                    if let Some(c) = v.groups[g].current {
                        assert(old_members.contains(c));
                    }
                } else if h == g {
                    let i = choose|i: int| 0 <= i < w.groups[h].members.len() && w.groups[h].members[i] == m;
                    assert(old_members[i] == m);
                    assert(old_members.contains(m));
                } else {
                    assert(v.groups[h].members.contains(m));
                }
            }
        }
    }
}

/// Attaching a checked action without a group to group `g` is checking it
/// right after attaching it unchecked.
proof fn lemma_attach_checked(v1: ActionSetView, g: int, a: int)
    requires
        set_wf(v1),
        0 <= a < v1.actions.len(),
        0 <= g < v1.groups.len(),
        v1.actions[a].group is None,
        v1.actions[a].checked,
    ensures
        set_wf(with_checked(attach(v1, g, a), a, false)),
        spec_set_checked(with_checked(attach(v1, g, a), a, false), a, true) == group_check_changed(
            attach(v1, g, a),
            g,
            a as usize,
            true,
        ),
        forall|h: int|
            0 <= h < v1.groups.len() && exclusive_consistent(v1, h) ==> #[trigger] exclusive_consistent(
                with_checked(attach(v1, g, a), a, false),
                h,
            ),
{
    let v2 = attach(v1, g, a);
    let u = with_checked(v2, a, false);
    lemma_attach(v1, g, a);
    lemma_only_checks_wf(v2, u);
    assert(with_checked(u, a, true) =~= v2) by {
        assert(u.actions.update(a, ActionView { checked: true, ..u.actions[a] }) =~= v2.actions);
    }
    let old_members = v1.groups[g].members;
    assert forall|h: int| 0 <= h < v1.groups.len() && exclusive_consistent(v1, h) implies #[trigger] exclusive_consistent(
        u,
        h,
    ) by {
        if u.groups[h].exclusion != ExclusionPolicy::NonExclusive {
            assert forall|m: usize| #[trigger] u.groups[h].members.contains(m) implies (u.actions[m as int].checked
                <==> u.groups[h].current == Some(m)) by {
                if h != g {
                    assert(v1.groups[h].members.contains(m));
                    assert(v1.actions[m as int].group == Some(h as usize));
                } else if m != a as usize {
                    let i = choose|i: int| 0 <= i < u.groups[h].members.len() && u.groups[h].members[i] == m;
                    assert(old_members[i] == m);
                    assert(old_members.contains(m));
                } else {
                    if let Some(c) = v1.groups[g].current {
                        assert(old_members.contains(c));
                        assert(v1.actions[c as int].group == Some(g as usize));
                    }
                }
            }
        }
    }
}

/// Adding action `a` to group `g` keeps the set well formed and keeps every
/// exclusive group in which exactly the tracked member was checked that way.
pub proof fn lemma_group_add(v: ActionSetView, g: int, a: int)
    requires
        set_wf(v),
        0 <= a < v.actions.len(),
        0 <= g < v.groups.len(),
    ensures
        set_wf(spec_group_add(v, g, a)),
        spec_group_add(v, g, a).actions.len() == v.actions.len(),
        spec_group_add(v, g, a).groups.len() == v.groups.len(),
        forall|h: int|
            0 <= h < v.groups.len() && exclusive_consistent(v, h) ==> #[trigger] exclusive_consistent(
                spec_group_add(v, g, a),
                h,
            ),
{
    let act = v.actions[a];
    if act.group != Some(g as usize) {
        let v1 = match act.group {
            Some(h) => spec_group_remove(v, h as int, a),
            None => v,
        };
        match act.group {
            Some(h) => {
                lemma_group_remove(v, h as int, a);
            },
            None => {},
        }
        assert(v1.actions[a] == ActionView { group: None, ..act });
        assert(forall|h: int| 0 <= h < v.groups.len() && exclusive_consistent(v, h) ==> #[trigger] exclusive_consistent(v1, h));
        lemma_attach(v1, g, a);
        if act.checked {
            let u = with_checked(attach(v1, g, a), a, false);
            lemma_attach_checked(v1, g, a);
            lemma_set_checked_wf(u, a, true);
            assert forall|h: int| 0 <= h < v.groups.len() && exclusive_consistent(v, h) implies #[trigger] exclusive_consistent(
                spec_group_add(v, g, a),
                h,
            ) by {
                assert(exclusive_consistent(v1, h));
                assert(exclusive_consistent(u, h));
                lemma_set_checked_consistent(u, a, true, h);
            }
        }
    }
}

/// Making an action checkable or not keeps the set well formed and keeps
/// every exclusive group in which exactly the tracked member was checked that way.
pub proof fn lemma_set_checkable(v: ActionSetView, a: int, b: bool)
    requires
        set_wf(v),
        0 <= a < v.actions.len(),
    ensures
        set_wf(spec_set_checkable(v, a, b)),
        forall|h: int|
            0 <= h < v.groups.len() && exclusive_consistent(v, h) ==> #[trigger] exclusive_consistent(
                spec_set_checkable(v, a, b),
                h,
            ),
{
    let act = v.actions[a];
    if act.checkable != b {
        let v1 = if !b && act.checked {
            spec_set_checked(v, a, false)
        } else {
            v
        };
        lemma_set_checked_wf(v, a, false);
        assert(set_wf(v1));
        if !b && act.checked {
            lemma_set_checked_effect(v, a, false);
        }
        assert(!b ==> !v1.actions[a].checked);
        let w = spec_set_checkable(v, a, b);
        assert forall|g: int| 0 <= g < w.groups.len() implies (#[trigger] w.groups[g]).members.no_duplicates() by {
            assert(w.groups[g] == v1.groups[g]);
        }
        assert forall|g: int, m: usize|
            0 <= g < w.groups.len() && #[trigger] w.groups[g].members.contains(m) implies m < w.actions.len()
                && w.actions[m as int].group == Some(g as usize) by {
            assert(v1.groups[g].members.contains(m));
        }
        assert forall|c: int| 0 <= c < w.actions.len() implies match (#[trigger] w.actions[c]).group {
            Some(g) => g < w.groups.len() && w.groups[g as int].members.contains(c as usize),
            None => true,
        } by {
            assert(w.actions[c].group == v1.actions[c].group);
            match v1.actions[c].group {
                Some(g) => {
                    assert(v1.groups[g as int].members.contains(c as usize));
                },
                None => {},
            }
        }
        assert forall|h: int| 0 <= h < v.groups.len() && exclusive_consistent(v, h) implies #[trigger] exclusive_consistent(
            w,
            h,
        ) by {
            if !b && act.checked {
                lemma_set_checked_consistent(v, a, false, h);
            }
            assert(exclusive_consistent(v1, h));
            if w.groups[h].exclusion != ExclusionPolicy::NonExclusive {
                assert forall|m: usize| #[trigger] w.groups[h].members.contains(m) implies (w.actions[m as int].checked
                    <==> w.groups[h].current == Some(m)) by {
                    assert(v1.groups[h].members.contains(m));
                }
            }
        }
    }
}

/// Triggering an action keeps the set well formed and keeps every exclusive
/// group in which exactly the tracked member was checked that way.
pub proof fn lemma_trigger(v: ActionSetView, a: int)
    requires
        set_wf(v),
        0 <= a < v.actions.len(),
    ensures
        set_wf(spec_trigger(v, a)),
        only_checks_changed(v, spec_trigger(v, a)),
        forall|h: int|
            0 <= h < v.groups.len() && exclusive_consistent(v, h) ==> #[trigger] exclusive_consistent(
                spec_trigger(v, a),
                h,
            ),
{
    lemma_set_checked_wf(v, a, !v.actions[a].checked);
    assert forall|h: int| 0 <= h < v.groups.len() && exclusive_consistent(v, h) implies #[trigger] exclusive_consistent(
        spec_trigger(v, a),
        h,
    ) by {
        lemma_set_checked_consistent(v, a, !v.actions[a].checked, h);
    }
}

/// In an exclusive group in which exactly the tracked member is checked, no
/// two distinct members are checked.
pub proof fn lemma_exclusive_single_checked(v: ActionSetView, g: int, m1: usize, m2: usize)
    requires
        set_wf(v),
        0 <= g < v.groups.len(),
        v.groups[g].exclusion != ExclusionPolicy::NonExclusive,
        exclusive_consistent(v, g),
        v.groups[g].members.contains(m1),
        v.groups[g].members.contains(m2),
        v.actions[m1 as int].checked,
        v.actions[m2 as int].checked,
    ensures
        m1 == m2,
{
}

/// Triggering the checked member of an `Exclusive` group leaves it checked.
pub proof fn lemma_trigger_keeps_exclusive_choice(v: ActionSetView, a: int, g: int)
    requires
        set_wf(v),
        0 <= a < v.actions.len(),
        0 <= g < v.groups.len(),
        v.actions[a].group == Some(g as usize),
        v.groups[g].exclusion == ExclusionPolicy::Exclusive,
        exclusive_consistent(v, g),
        v.actions[a].checked,
    ensures
        spec_trigger(v, a) == v,
{
    assert(v.groups[g].members.contains(a as usize));
}

/// Triggering the checked member of an `ExclusiveOptional` group, when it is
/// enabled, unchecks it and leaves no member of the group checked.
pub proof fn lemma_trigger_clears_optional_choice(v: ActionSetView, a: int, g: int)
    requires
        set_wf(v),
        0 <= a < v.actions.len(),
        0 <= g < v.groups.len(),
        v.actions[a].group == Some(g as usize),
        v.groups[g].exclusion == ExclusionPolicy::ExclusiveOptional,
        exclusive_consistent(v, g),
        v.actions[a].checked,
        effectively_enabled(v, a),
    ensures
        !spec_trigger(v, a).actions[a].checked,
        spec_trigger(v, a).groups[g].current is None,
        forall|m: usize|
            #[trigger] spec_trigger(v, a).groups[g].members.contains(m) ==> !spec_trigger(
                v,
                a,
            ).actions[m as int].checked,
{
    assert(v.groups[g].members.contains(a as usize));
    lemma_set_checked_wf(v, a, false);
    lemma_set_checked_effect(v, a, false);
    lemma_set_checked_consistent(v, a, false, g);
}

/// Triggering an unchecked, enabled, checkable member of an exclusive group
/// checks it, makes it the tracked member, and leaves every other member unchecked.
pub proof fn lemma_trigger_moves_exclusive_choice(v: ActionSetView, a: int, g: int)
    requires
        set_wf(v),
        0 <= a < v.actions.len(),
        0 <= g < v.groups.len(),
        v.actions[a].group == Some(g as usize),
        v.groups[g].exclusion != ExclusionPolicy::NonExclusive,
        exclusive_consistent(v, g),
        v.actions[a].checkable,
        !v.actions[a].checked,
        effectively_enabled(v, a),
    ensures
        spec_trigger(v, a).actions[a].checked,
        spec_trigger(v, a).groups[g].current == Some(a as usize),
        forall|m: usize|
            #[trigger] spec_trigger(v, a).groups[g].members.contains(m) && m != a as usize
                ==> !spec_trigger(v, a).actions[m as int].checked,
{
    lemma_set_checked_wf(v, a, true);
    lemma_set_checked_effect(v, a, true);
    lemma_set_checked_consistent(v, a, true, g);
}

/// The upper-cased mnemonic character of `text`, as `Action::mnemonic` gives it.
pub open spec fn text_mnemonic(text: Seq<char>) -> Option<char> {
    match mnemonic_char(text) {
        Some(m) => Some(char_uppercase(m)[0]),
        None => None,
    }
}

/// `t`, or the text without mnemonic markers when `t` is empty.
pub open spec fn or_display_text(t: Seq<char>, text: Seq<char>) -> Seq<char> {
    if t.len() == 0 {
        stripped(text)
    } else {
        t
    }
}

impl Action {
    /// The text, with `&` mnemonic markers.
    pub fn text(&self) -> (r: &str)
        ensures
            r@ == self@.text,
    {
        self.text.as_str()
    }

    /// The text without mnemonic markers.
    pub fn display_text(&self) -> (r: String)
        ensures
            r@ == stripped(self@.text),
    {
        strip_mnemonic(self.text.as_str())
    }

    /// The upper-cased mnemonic character of the text, if any.
    pub fn mnemonic(&self) -> (r: Option<char>)
        ensures
            r == text_mnemonic(self@.text),
    {
        mnemonic(self.text.as_str())
    }

    /// Short text used by tool buttons; the text without markers when unset.
    pub fn icon_text(&self) -> (r: String)
        ensures
            r@ == or_display_text(self@.icon_text, self@.text),
    {
        if vstd::string::StrSliceExecFns::unicode_len(self.icon_text.as_str()) == 0 {
            self.display_text()
        } else {
            self.icon_text.clone()
        }
    }

    /// Tool tip; the text without markers when unset.
    pub fn tool_tip(&self) -> (r: String)
        ensures
            r@ == or_display_text(self@.tool_tip, self@.text),
    {
        if vstd::string::StrSliceExecFns::unicode_len(self.tool_tip.as_str()) == 0 {
            self.display_text()
        } else {
            self.tool_tip.clone()
        }
    }

    /// Status bar tip.
    pub fn status_tip(&self) -> (r: &str)
        ensures
            r@ == self@.status_tip,
    {
        self.status_tip.as_str()
    }

    /// Keyboard shortcut.
    pub fn shortcut(&self) -> (r: KeySequence)
        ensures
            r@ == self@.shortcut,
    {
        self.shortcut.clone()
    }

    pub fn is_checkable(&self) -> (r: bool)
        ensures
            r == self@.checkable,
    {
        self.checkable
    }

    /// The user data.
    pub fn data(&self) -> (r: Option<u64>)
        ensures
            r == self@.data,
    {
        self.data
    }

    /// The sub-menu this action opens, if any.
    pub fn menu(&self) -> (r: Option<u64>)
        ensures
            r == self@.menu,
    {
        self.menu
    }

    pub fn is_checked(&self) -> (r: bool)
        ensures
            r == self@.checked,
    {
        self.checked
    }

    pub fn is_separator(&self) -> (r: bool)
        ensures
            r == self@.separator,
    {
        self.separator
    }

    /// Whether the action belongs to a group.
    pub fn has_action_group(&self) -> (r: bool)
        ensures
            r == self@.group is Some,
    {
        self.group.is_some()
    }
}

impl ActionGroup {
    /// Member actions, by index, in the order they were added.
    pub fn actions(&self) -> (r: Vec<usize>)
        ensures
            r@ == self@.members,
    {
        self.members.clone()
    }

    /// The checked member that exclusivity tracks, if any.
    pub fn checked_action(&self) -> (r: Option<usize>)
        ensures
            r == self@.current,
    {
        self.current
    }

    pub fn exclusion_policy(&self) -> (r: ExclusionPolicy)
        ensures
            r == self@.exclusion,
    {
        self.exclusion
    }

    /// Whether the policy is other than `NonExclusive`.
    pub fn is_exclusive(&self) -> (r: bool)
        ensures
            r == (self@.exclusion != ExclusionPolicy::NonExclusive),
    {
        match self.exclusion {
            ExclusionPolicy::NonExclusive => false,
            _ => true,
        }
    }

    pub fn is_enabled(&self) -> (r: bool)
        ensures
            r == self@.enabled,
    {
        self.enabled
    }

    pub fn is_visible(&self) -> (r: bool)
        ensures
            r == self@.visible,
    {
        self.visible
    }
}

/// A collection of actions and action groups, addressed by index.
pub struct ActionSet {
    actions: Vec<Action>,
    groups: Vec<ActionGroup>,
}

impl View for ActionSet {
    type V = ActionSetView;

    closed spec fn view(&self) -> ActionSetView {
        ActionSetView {
            actions: self.actions@.map_values(|a: Action| a@),
            groups: self.groups@.map_values(|g: ActionGroup| g@),
        }
    }
}

/// Every exclusive group of `v` in which exactly the tracked member is checked
/// is still so in `w`.
pub open spec fn keeps_consistency(v: ActionSetView, w: ActionSetView) -> bool {
    forall|h: int|
        0 <= h < v.groups.len() && exclusive_consistent(v, h) ==> #[trigger] exclusive_consistent(w, h)
}

/// `v` with action `a` replaced by `av`.
pub open spec fn with_action(v: ActionSetView, a: int, av: ActionView) -> ActionSetView {
    ActionSetView { actions: v.actions.update(a, av), ..v }
}

/// `v` with group `g` replaced by `gv`.
pub open spec fn with_group_view(v: ActionSetView, g: int, gv: GroupView) -> ActionSetView {
    ActionSetView { groups: v.groups.update(g, gv), ..v }
}

/// Changing fields of an action other than its group and checked state keeps
/// the set well formed and every exclusive group consistent.
proof fn lemma_plain_fields(v: ActionSetView, a: int, av: ActionView)
    requires
        set_wf(v),
        0 <= a < v.actions.len(),
        av.group == v.actions[a].group,
        av.checked == v.actions[a].checked,
        av.checked ==> av.checkable,
    ensures
        set_wf(with_action(v, a, av)),
        forall|h: int|
            0 <= h < v.groups.len() && exclusive_consistent(v, h) ==> #[trigger] exclusive_consistent(
                with_action(v, a, av),
                h,
            ),
{
    let w = with_action(v, a, av);
    assert forall|g: int, m: usize|
        0 <= g < w.groups.len() && #[trigger] w.groups[g].members.contains(m) implies m < w.actions.len()
            && w.actions[m as int].group == Some(g as usize) by {
        assert(v.groups[g].members.contains(m));
    }
    assert forall|h: int| 0 <= h < v.groups.len() && exclusive_consistent(v, h) implies #[trigger] exclusive_consistent(
        w,
        h,
    ) by {
        if w.groups[h].exclusion != ExclusionPolicy::NonExclusive {
            assert forall|m: usize| #[trigger] w.groups[h].members.contains(m) implies (w.actions[m as int].checked
                <==> w.groups[h].current == Some(m)) by {
                assert(v.groups[h].members.contains(m));
            }
        }
    }
}

/// Changing the policy, enabled or visible flag of a group keeps the set well
/// formed, and keeps each exclusive group consistent unless it just became exclusive.
proof fn lemma_group_fields(v: ActionSetView, g: int, gv: GroupView)
    requires
        set_wf(v),
        0 <= g < v.groups.len(),
        gv.members == v.groups[g].members,
        gv.current == v.groups[g].current,
    ensures
        set_wf(with_group_view(v, g, gv)),
        forall|h: int|
            0 <= h < v.groups.len() && exclusive_consistent(v, h) && (h != g || gv.exclusion
                == ExclusionPolicy::NonExclusive || v.groups[h].exclusion != ExclusionPolicy::NonExclusive)
                ==> #[trigger] exclusive_consistent(with_group_view(v, g, gv), h),
{
    let w = with_group_view(v, g, gv);
    assert forall|h: int| 0 <= h < w.groups.len() implies (#[trigger] w.groups[h]).members.no_duplicates() by {
        assert(w.groups[h].members == v.groups[h].members);
    }
    assert forall|h: int, m: usize|
        0 <= h < w.groups.len() && #[trigger] w.groups[h].members.contains(m) implies m < w.actions.len()
            && w.actions[m as int].group == Some(h as usize) by {
        assert(v.groups[h].members.contains(m));
    }
    assert forall|b: int| 0 <= b < w.actions.len() implies match (#[trigger] w.actions[b]).group {
        Some(h) => h < w.groups.len() && w.groups[h as int].members.contains(b as usize),
        None => true,
    } by {
        if let Some(h) = v.actions[b].group {
            assert(w.groups[h as int].members == v.groups[h as int].members);
        }
    }
    assert forall|h: int| 0 <= h < w.groups.len() implies match (#[trigger] w.groups[h]).current {
        Some(c) => w.groups[h].members.contains(c),
        None => true,
    } by {
        assert(w.groups[h].members == v.groups[h].members);
        assert(v.groups[h].current matches Some(c) ==> v.groups[h].members.contains(c));
    }
    assert forall|h: int|
        0 <= h < v.groups.len() && exclusive_consistent(v, h) && (h != g || gv.exclusion
            == ExclusionPolicy::NonExclusive || v.groups[h].exclusion != ExclusionPolicy::NonExclusive)
        implies #[trigger] exclusive_consistent(w, h) by {
        if w.groups[h].exclusion != ExclusionPolicy::NonExclusive {
            assert forall|m: usize| #[trigger] w.groups[h].members.contains(m) implies (w.actions[m as int].checked
                <==> w.groups[h].current == Some(m)) by {
                assert(v.groups[h].members.contains(m));
            }
        }
    }
}

impl ActionSet {
    /// The invariant of the set.
    pub open spec fn wf(&self) -> bool {
        set_wf(self@)
    }

    /// An empty set.
    pub fn new() -> (r: ActionSet)
        ensures
            r.wf(),
            r@.actions.len() == 0,
            r@.groups.len() == 0,
    {
        let r = ActionSet { actions: Vec::new(), groups: Vec::new() };
        assert(r@.actions =~= Seq::<ActionView>::empty());
        assert(r@.groups =~= Seq::<GroupView>::empty());
        r
    }

    /// The action at index `a`.
    pub fn action(&self, a: usize) -> (r: &Action)
        requires
            a < self@.actions.len(),
        ensures
            r@ == self@.actions[a as int],
    {
        &self.actions[a]
    }

    /// The group at index `g`.
    pub fn group(&self, g: usize) -> (r: &ActionGroup)
        requires
            g < self@.groups.len(),
        ensures
            r@ == self@.groups[g as int],
    {
        &self.groups[g]
    }

    /// Number of actions.
    pub fn action_count(&self) -> (r: usize)
        ensures
            r == self@.actions.len(),
    {
        self.actions.len()
    }

    /// Number of groups.
    pub fn group_count(&self) -> (r: usize)
        ensures
            r == self@.groups.len(),
    {
        self.groups.len()
    }

    fn push_action(&mut self, act: Action) -> (a: usize)
        requires
            old(self).wf(),
            act@.group is None,
            !act@.checked,
        ensures
            final(self).wf(),
            a == old(self)@.actions.len(),
            final(self)@ == (ActionSetView { actions: old(self)@.actions.push(act@), ..old(self)@ }),
    {
        let a = self.actions.len();
        self.actions.push(act);
        assert(self@.actions =~= old(self)@.actions.push(act@));
        assert(self@.groups =~= old(self)@.groups);
        proof {
            let v = old(self)@;
            let w = self@;
            assert(w.actions.len() == self.actions.len());
            assert forall|g: int, m: usize|
                0 <= g < w.groups.len() && #[trigger] w.groups[g].members.contains(m) implies m < w.actions.len()
                    && w.actions[m as int].group == Some(g as usize) by {
                assert(v.groups[g].members.contains(m));
            }
            assert forall|b: int| 0 <= b < w.actions.len() implies match (#[trigger] w.actions[b]).group {
                Some(g) => g < w.groups.len() && w.groups[g as int].members.contains(b as usize),
                None => true,
            } by {
                if b < v.actions.len() {
                    assert(w.actions[b] == v.actions[b]);
                }
            }
        }
        a
    }

    /// Adds an action with `text` (mnemonics marked with `&`), enabled, visible
    /// and unchecked (`QAction::new`), and returns its index.
    pub fn add_action(&mut self, text: &str) -> (a: usize)
        requires
            old(self).wf(),
        ensures
            final(self).wf(),
            a == old(self)@.actions.len(),
            final(self)@ == (ActionSetView {
                actions: old(self)@.actions.push(fresh_action(text@)),
                ..old(self)@
            }),
    {
        let act = Action {
            text: str_to_string(text),
            icon_text: String::new(),
            tool_tip: String::new(),
            status_tip: String::new(),
            shortcut: KeySequence::new(),
            checkable: false,
            checked: false,
            enabled: true,
            visible: true,
            separator: false,
            group: None,
            data: None,
            menu: None,
        };
        assert(act@ == fresh_action(text@)) by {
            assert(act@.icon_text =~= Seq::<char>::empty());
            assert(act@.tool_tip =~= Seq::<char>::empty());
            assert(act@.status_tip =~= Seq::<char>::empty());
        }
        self.push_action(act)
    }

    /// Adds a separator action (`QAction::separator_ref`) and returns its index.
    pub fn add_separator(&mut self) -> (a: usize)
        requires
            old(self).wf(),
        ensures
            final(self).wf(),
            a == old(self)@.actions.len(),
            final(self)@ == (ActionSetView {
                actions: old(self)@.actions.push(
                    ActionView { separator: true, ..fresh_action(Seq::empty()) },
                ),
                ..old(self)@
            }),
    {
        let act = Action {
            text: String::new(),
            icon_text: String::new(),
            tool_tip: String::new(),
            status_tip: String::new(),
            shortcut: KeySequence::new(),
            checkable: false,
            checked: false,
            enabled: true,
            visible: true,
            separator: true,
            group: None,
            data: None,
            menu: None,
        };
        assert(act@ == ActionView { separator: true, ..fresh_action(Seq::empty()) }) by {
            assert(act@.text =~= Seq::<char>::empty());
            assert(act@.icon_text =~= Seq::<char>::empty());
            assert(act@.tool_tip =~= Seq::<char>::empty());
            assert(act@.status_tip =~= Seq::<char>::empty());
        }
        self.push_action(act)
    }

    /// Adds an exclusive, enabled, visible group without members
    /// (`QActionGroup::new`) and returns its index.
    pub fn add_group(&mut self) -> (g: usize)
        requires
            old(self).wf(),
        ensures
            final(self).wf(),
            g == old(self)@.groups.len(),
            final(self)@ == (ActionSetView { groups: old(self)@.groups.push(fresh_group()), ..old(self)@ }),
    {
        let grp = ActionGroup {
            members: Vec::new(),
            current: None,
            exclusion: ExclusionPolicy::Exclusive,
            enabled: true,
            visible: true,
        };
        let g = self.groups.len();
        self.groups.push(grp);
        assert(grp@.members =~= Seq::<usize>::empty());
        assert(self@.groups =~= old(self)@.groups.push(fresh_group()));
        assert(self@.actions =~= old(self)@.actions);
        proof {
            let v = old(self)@;
            let w = self@;
            assert(w.groups.len() == self.groups.len());
            assert forall|h: int| 0 <= h < w.groups.len() implies (#[trigger] w.groups[h]).members.no_duplicates() by {
                if h < v.groups.len() {
                    assert(w.groups[h] == v.groups[h]);
                }
            }
            assert forall|h: int, m: usize|
                0 <= h < w.groups.len() && #[trigger] w.groups[h].members.contains(m) implies m < w.actions.len()
                    && w.actions[m as int].group == Some(h as usize) by {
                if h < v.groups.len() {
                    assert(w.groups[h] == v.groups[h]);
                    assert(v.groups[h].members.contains(m));
                }
            }
            assert forall|b: int| 0 <= b < w.actions.len() implies match (#[trigger] w.actions[b]).group {
                Some(h) => h < w.groups.len() && w.groups[h as int].members.contains(b as usize),
                None => true,
            } by {
                if let Some(h) = v.actions[b].group {
                    assert(w.groups[h as int] == v.groups[h as int]);
                }
            }
            assert forall|h: int| 0 <= h < w.groups.len() implies match (#[trigger] w.groups[h]).current {
                Some(c) => w.groups[h].members.contains(c),
                None => true,
            } by {
                if h < v.groups.len() {
                    assert(w.groups[h] == v.groups[h]);
                }
            }
        }
        g
    }

    /// Replaces the text (mnemonics marked with `&`).
    pub fn set_text(&mut self, a: usize, text: &str)
        requires
            old(self).wf(),
            a < old(self)@.actions.len(),
        ensures
            final(self).wf(),
            final(self)@ == with_action(
                old(self)@,
                a as int,
                ActionView { text: text@, ..old(self)@.actions[a as int] },
            ),
            keeps_consistency(old(self)@, final(self)@),
    {
        self.actions[a].text = str_to_string(text);
        proof {
            let av = ActionView { text: text@, ..old(self)@.actions[a as int] };
            lemma_plain_fields(old(self)@, a as int, av);
            assert(self@.actions =~= old(self)@.actions.update(a as int, av));
        }
    }

    /// Replaces the short text for tool buttons.
    pub fn set_icon_text(&mut self, a: usize, icon_text: &str)
        requires
            old(self).wf(),
            a < old(self)@.actions.len(),
        ensures
            final(self).wf(),
            final(self)@ == with_action(
                old(self)@,
                a as int,
                ActionView { icon_text: icon_text@, ..old(self)@.actions[a as int] },
            ),
            keeps_consistency(old(self)@, final(self)@),
    {
        self.actions[a].icon_text = str_to_string(icon_text);
        proof {
            let av = ActionView { icon_text: icon_text@, ..old(self)@.actions[a as int] };
            lemma_plain_fields(old(self)@, a as int, av);
            assert(self@.actions =~= old(self)@.actions.update(a as int, av));
        }
    }

    /// Replaces the tool tip.
    pub fn set_tool_tip(&mut self, a: usize, tool_tip: &str)
        requires
            old(self).wf(),
            a < old(self)@.actions.len(),
        ensures
            final(self).wf(),
            final(self)@ == with_action(
                old(self)@,
                a as int,
                ActionView { tool_tip: tool_tip@, ..old(self)@.actions[a as int] },
            ),
            keeps_consistency(old(self)@, final(self)@),
    {
        self.actions[a].tool_tip = str_to_string(tool_tip);
        proof {
            let av = ActionView { tool_tip: tool_tip@, ..old(self)@.actions[a as int] };
            lemma_plain_fields(old(self)@, a as int, av);
            assert(self@.actions =~= old(self)@.actions.update(a as int, av));
        }
    }

    /// Replaces the status bar tip.
    pub fn set_status_tip(&mut self, a: usize, status_tip: &str)
        requires
            old(self).wf(),
            a < old(self)@.actions.len(),
        ensures
            final(self).wf(),
            final(self)@ == with_action(
                old(self)@,
                a as int,
                ActionView { status_tip: status_tip@, ..old(self)@.actions[a as int] },
            ),
            keeps_consistency(old(self)@, final(self)@),
    {
        self.actions[a].status_tip = str_to_string(status_tip);
        proof {
            let av = ActionView { status_tip: status_tip@, ..old(self)@.actions[a as int] };
            lemma_plain_fields(old(self)@, a as int, av);
            assert(self@.actions =~= old(self)@.actions.update(a as int, av));
        }
    }

    /// Attaches user data to action `a`.
    pub fn set_data(&mut self, a: usize, data: Option<u64>)
        requires
            old(self).wf(),
            a < old(self)@.actions.len(),
        ensures
            final(self).wf(),
            final(self)@ == with_action(old(self)@, a as int, ActionView { data, ..old(self)@.actions[a as int] }),
            keeps_consistency(old(self)@, final(self)@),
    {
        self.actions[a].data = data;
        proof {
            let av = ActionView { data, ..old(self)@.actions[a as int] };
            lemma_plain_fields(old(self)@, a as int, av);
            assert(self@.actions =~= old(self)@.actions.update(a as int, av));
        }
    }

    /// Sets the sub-menu action `a` opens.
    pub fn set_menu(&mut self, a: usize, menu: Option<u64>)
        requires
            old(self).wf(),
            a < old(self)@.actions.len(),
        ensures
            final(self).wf(),
            final(self)@ == with_action(old(self)@, a as int, ActionView { menu, ..old(self)@.actions[a as int] }),
            keeps_consistency(old(self)@, final(self)@),
    {
        self.actions[a].menu = menu;
        proof {
            let av = ActionView { menu, ..old(self)@.actions[a as int] };
            lemma_plain_fields(old(self)@, a as int, av);
            assert(self@.actions =~= old(self)@.actions.update(a as int, av));
        }
    }

    /// Replaces the keyboard shortcut.
    pub fn set_shortcut(&mut self, a: usize, shortcut: KeySequence)
        requires
            old(self).wf(),
            a < old(self)@.actions.len(),
        ensures
            final(self).wf(),
            final(self)@ == with_action(
                old(self)@,
                a as int,
                ActionView { shortcut: shortcut@, ..old(self)@.actions[a as int] },
            ),
            keeps_consistency(old(self)@, final(self)@),
    {
        self.actions[a].shortcut = shortcut;
        proof {
            let av = ActionView { shortcut: shortcut@, ..old(self)@.actions[a as int] };
            lemma_plain_fields(old(self)@, a as int, av);
            assert(self@.actions =~= old(self)@.actions.update(a as int, av));
        }
    }

    /// Enables or disables the action itself.
    pub fn set_enabled(&mut self, a: usize, enabled: bool)
        requires
            old(self).wf(),
            a < old(self)@.actions.len(),
        ensures
            final(self).wf(),
            final(self)@ == with_action(
                old(self)@,
                a as int,
                ActionView { enabled: enabled, ..old(self)@.actions[a as int] },
            ),
            keeps_consistency(old(self)@, final(self)@),
    {
        self.actions[a].enabled = enabled;
        proof {
            let av = ActionView { enabled: enabled, ..old(self)@.actions[a as int] };
            lemma_plain_fields(old(self)@, a as int, av);
            assert(self@.actions =~= old(self)@.actions.update(a as int, av));
        }
    }

    /// Shows or hides the action itself.
    pub fn set_visible(&mut self, a: usize, visible: bool)
        requires
            old(self).wf(),
            a < old(self)@.actions.len(),
        ensures
            final(self).wf(),
            final(self)@ == with_action(
                old(self)@,
                a as int,
                ActionView { visible: visible, ..old(self)@.actions[a as int] },
            ),
            keeps_consistency(old(self)@, final(self)@),
    {
        self.actions[a].visible = visible;
        proof {
            let av = ActionView { visible: visible, ..old(self)@.actions[a as int] };
            lemma_plain_fields(old(self)@, a as int, av);
            assert(self@.actions =~= old(self)@.actions.update(a as int, av));
        }
    }

    /// Makes the action a separator or not.
    pub fn set_separator(&mut self, a: usize, separator: bool)
        requires
            old(self).wf(),
            a < old(self)@.actions.len(),
        ensures
            final(self).wf(),
            final(self)@ == with_action(
                old(self)@,
                a as int,
                ActionView { separator: separator, ..old(self)@.actions[a as int] },
            ),
            keeps_consistency(old(self)@, final(self)@),
    {
        self.actions[a].separator = separator;
        proof {
            let av = ActionView { separator: separator, ..old(self)@.actions[a as int] };
            lemma_plain_fields(old(self)@, a as int, av);
            assert(self@.actions =~= old(self)@.actions.update(a as int, av));
        }
    }

    /// What group `g` does when its member `a` becomes checked or unchecked.
    fn group_check_changed(&mut self, g: usize, a: usize, x: bool)
        requires
            g < old(self)@.groups.len(),
            old(self)@.groups[g as int].current matches Some(p) ==> p < old(self)@.actions.len(),
        ensures
            final(self)@ == group_check_changed(old(self)@, g as int, a, x),
    {
        match self.groups[g].exclusion {
            ExclusionPolicy::NonExclusive => {
                return;
            },
            _ => {},
        }
        if x {
            let prev = self.groups[g].current;
            self.groups[g].current = Some(a);
            assert(self@.groups =~= with_current(old(self)@, g as int, Some(a)).groups);
            match prev {
                Some(p) => {
                    if p != a {
                        if self.actions[p].checkable && self.actions[p].checked {
                            let ghost mid = self@;
                            self.actions[p].checked = false;
                            assert(self@.actions =~= with_checked(mid, p as int, false).actions);
                        }
                    }
                },
                None => {},
            }
        } else {
            let is_current = match self.groups[g].current {
                Some(c) => c == a,
                None => false,
            };
            if is_current {
                self.groups[g].current = None;
                assert(self@.groups =~= with_current(old(self)@, g as int, None).groups);
            }
        }
    }

    /// Checks or unchecks action `a` (`QAction::setChecked`); ignored unless it
    /// is checkable. Checking a member of an exclusive group unchecks the
    /// previously checked member.
    pub fn set_checked(&mut self, a: usize, x: bool)
        requires
            old(self).wf(),
            a < old(self)@.actions.len(),
        ensures
            final(self).wf(),
            final(self)@ == spec_set_checked(old(self)@, a as int, x),
            keeps_consistency(old(self)@, final(self)@),
    {
        proof {
            lemma_set_checked_wf(old(self)@, a as int, x);
            assert forall|h: int| 0 <= h < old(self)@.groups.len() && exclusive_consistent(old(self)@, h) implies #[trigger] exclusive_consistent(
                spec_set_checked(old(self)@, a as int, x),
                h,
            ) by {
                lemma_set_checked_consistent(old(self)@, a as int, x, h);
            }
        }
        if !self.actions[a].checkable || self.actions[a].checked == x {
            return;
        }
        self.actions[a].checked = x;
        assert(self@.actions =~= with_checked(old(self)@, a as int, x).actions);
        match self.actions[a].group {
            Some(g) => {
                proof {
                    let v = old(self)@;
                    assert(v.groups[g as int].current matches Some(p) ==> v.groups[g as int].members.contains(p));
                }
                self.group_check_changed(g, a, x);
            },
            None => {},
        }
    }

    /// Flips the checked state of action `a` (`QAction::toggle`).
    pub fn toggle(&mut self, a: usize)
        requires
            old(self).wf(),
            a < old(self)@.actions.len(),
        ensures
            final(self).wf(),
            final(self)@ == spec_set_checked(old(self)@, a as int, !old(self)@.actions[a as int].checked),
            keeps_consistency(old(self)@, final(self)@),
    {
        let next = !self.actions[a].checked;
        self.set_checked(a, next);
    }

    /// Makes action `a` checkable or not (`QAction::setCheckable`); an action
    /// that stops being checkable is unchecked first.
    pub fn set_checkable(&mut self, a: usize, b: bool)
        requires
            old(self).wf(),
            a < old(self)@.actions.len(),
        ensures
            final(self).wf(),
            final(self)@ == spec_set_checkable(old(self)@, a as int, b),
            keeps_consistency(old(self)@, final(self)@),
    {
        proof {
            lemma_set_checkable(old(self)@, a as int, b);
        }
        if self.actions[a].checkable == b {
            return;
        }
        if !b && self.actions[a].checked {
            self.set_checked(a, false);
        }
        let ghost mid = self@;
        self.actions[a].checkable = b;
        assert(self@.actions =~= mid.actions.update(a as int, ActionView { checkable: b, ..mid.actions[a as int] }));
    }

    /// Whether action `a` and its group, if any, are enabled (`QAction::isEnabled`).
    pub fn is_enabled(&self, a: usize) -> (r: bool)
        requires
            self.wf(),
            a < self@.actions.len(),
        ensures
            r == effectively_enabled(self@, a as int),
    {
        if !self.actions[a].enabled {
            return false;
        }
        match self.actions[a].group {
            Some(g) => self.groups[g].enabled,
            None => true,
        }
    }

    /// Whether action `a` and its group, if any, are visible (`QAction::isVisible`).
    pub fn is_visible(&self, a: usize) -> (r: bool)
        requires
            self.wf(),
            a < self@.actions.len(),
        ensures
            r == effectively_visible(self@, a as int),
    {
        if !self.actions[a].visible {
            return false;
        }
        match self.actions[a].group {
            Some(g) => self.groups[g].visible,
            None => true,
        }
    }

    /// Whether action `a` is in a group with an exclusive policy (shown as a
    /// radio item).
    pub fn is_exclusive_in_group(&self, a: usize) -> (r: bool)
        requires
            self.wf(),
            a < self@.actions.len(),
        ensures
            r == match self@.actions[a as int].group {
                Some(g) => self@.groups[g as int].exclusion != ExclusionPolicy::NonExclusive,
                None => false,
            },
    {
        match self.actions[a].group {
            Some(g) => self.groups[g].is_exclusive(),
            None => false,
        }
    }

    /// Triggers action `a` (`QAction::trigger`): ignored when it is disabled;
    /// a checkable action toggles, except the checked member of an `Exclusive`
    /// group, which stays checked. Returns the checked state the `triggered`
    /// notification carries, or `None` when the trigger was ignored.
    pub fn trigger(&mut self, a: usize) -> (r: Option<bool>)
        requires
            old(self).wf(),
            a < old(self)@.actions.len(),
        ensures
            final(self).wf(),
            final(self)@ == spec_trigger(old(self)@, a as int),
            keeps_consistency(old(self)@, final(self)@),
            r == if effectively_enabled(old(self)@, a as int) {
                Some(final(self)@.actions[a as int].checked)
            } else {
                None
            },
    {
        proof {
            lemma_trigger(old(self)@, a as int);
        }
        if !self.is_enabled(a) {
            return None;
        }
        if self.actions[a].checkable {
            let locked = self.actions[a].checked && match self.actions[a].group {
                Some(g) => match self.groups[g].exclusion {
                    ExclusionPolicy::Exclusive => match self.groups[g].current {
                        Some(c) => c == a,
                        None => false,
                    },
                    _ => false,
                },
                None => false,
            };
            if !locked {
                self.toggle(a);
            }
        }
        Some(self.actions[a].checked)
    }

    /// Activates action `a` (`QAction::activate`): a trigger as in
    /// [`ActionSet::trigger`]; a hover changes no state and carries no
    /// checked state.
    pub fn activate(&mut self, a: usize, event: ActionEvent) -> (r: Option<bool>)
        requires
            old(self).wf(),
            a < old(self)@.actions.len(),
        ensures
            final(self).wf(),
            keeps_consistency(old(self)@, final(self)@),
            event == ActionEvent::Trigger ==> final(self)@ == spec_trigger(old(self)@, a as int) && r == (
            if effectively_enabled(old(self)@, a as int) {
                Some(final(self)@.actions[a as int].checked)
            } else {
                None
            }),
            event == ActionEvent::Hover ==> final(self)@ == old(self)@ && r is None,
    {
        match event {
            ActionEvent::Trigger => self.trigger(a),
            ActionEvent::Hover => None,
        }
    }

    /// The pointer rests on action `a` (`QAction::hover`): its `hovered`
    /// signal is emitted, and its group's, which is returned, when it has one.
    pub fn hover(&self, a: usize) -> (group: Option<usize>)
        requires
            a < self@.actions.len(),
        ensures
            group == self@.actions[a as int].group,
    {
        self.actions[a].group
    }

    /// Takes member `a` out of group `g`.
    fn detach_member(&mut self, g: usize, a: usize)
        requires
            old(self).wf(),
            a < old(self)@.actions.len(),
            g < old(self)@.groups.len(),
            old(self)@.actions[a as int].group == Some(g),
        ensures
            final(self)@ == spec_group_remove(old(self)@, g as int, a as int),
    {
        let mut kept: Vec<usize> = Vec::new();
        let mut i: usize = 0;
        let n = self.groups[g].members.len();
        while i < n
            invariant
                0 <= i <= n,
                n == self.groups@[g as int].members@.len(),
                g < self.groups@.len(),
                kept@ == drop_member(self.groups@[g as int].members@.subrange(0, i as int), a),
            decreases n - i,
        {
            let m = self.groups[g].members[i];
            proof {
                let ms = self.groups@[g as int].members@;
                assert(ms.subrange(0, i as int + 1).drop_last() =~= ms.subrange(0, i as int));
                assert(ms.subrange(0, i as int + 1).last() == m);
            }
            if m != a {
                kept.push(m);
            }
            i = i + 1;
        }
        proof {
            let ms = self.groups@[g as int].members@;
            assert(ms.subrange(0, n as int) =~= ms);
        }
        let clear = match self.groups[g].current {
            Some(c) => c == a,
            None => false,
        };
        self.groups[g].members = kept;
        if clear {
            self.groups[g].current = None;
        }
        self.actions[a].group = None;
        proof {
            let w = spec_group_remove(old(self)@, g as int, a as int);
            assert(self@.groups =~= w.groups);
            assert(self@.actions =~= w.actions);
        }
    }

    /// Adds action `a` to group `g`, taking it out of any other group
    /// (`QActionGroup::addAction`); a checked action then counts as the
    /// checked member of `g`. Returns `a`.
    pub fn group_add_action(&mut self, g: usize, a: usize) -> (r: usize)
        requires
            old(self).wf(),
            a < old(self)@.actions.len(),
            g < old(self)@.groups.len(),
        ensures
            final(self).wf(),
            r == a,
            final(self)@ == spec_group_add(old(self)@, g as int, a as int),
            keeps_consistency(old(self)@, final(self)@),
    {
        proof {
            lemma_group_add(old(self)@, g as int, a as int);
        }
        match self.actions[a].group {
            Some(h) => {
                if h == g {
                    return a;
                }
                proof {
                    lemma_group_remove(old(self)@, h as int, a as int);
                }
                self.detach_member(h, a);
            },
            None => {},
        }
        let ghost v1 = self@;
        proof {
            lemma_attach(v1, g as int, a as int);
        }
        self.actions[a].group = Some(g);
        self.groups[g].members.push(a);
        assert(self@ == attach(v1, g as int, a as int)) by {
            assert(self@.actions =~= attach(v1, g as int, a as int).actions);
            assert(self@.groups =~= attach(v1, g as int, a as int).groups);
        }
        if self.actions[a].checked {
            proof {
                let v2 = self@;
                assert(v2.groups[g as int].current matches Some(p) ==> v2.groups[g as int].members.contains(p));
            }
            self.group_check_changed(g, a, true);
        }
        a
    }

    /// Adds a new action with `text` to group `g` and returns its index.
    pub fn group_add_new_action(&mut self, g: usize, text: &str) -> (r: usize)
        requires
            old(self).wf(),
            g < old(self)@.groups.len(),
        ensures
            final(self).wf(),
            r == old(self)@.actions.len(),
            final(self)@ == spec_group_add(
                ActionSetView { actions: old(self)@.actions.push(fresh_action(text@)), ..old(self)@ },
                g as int,
                r as int,
            ),
    {
        let a = self.add_action(text);
        self.group_add_action(g, a)
    }

    /// Removes action `a` from group `g` if it is a member (`QActionGroup::removeAction`).
    pub fn group_remove_action(&mut self, g: usize, a: usize)
        requires
            old(self).wf(),
            a < old(self)@.actions.len(),
            g < old(self)@.groups.len(),
        ensures
            final(self).wf(),
            final(self)@ == spec_group_remove(old(self)@, g as int, a as int),
            keeps_consistency(old(self)@, final(self)@),
    {
        proof {
            lemma_group_remove(old(self)@, g as int, a as int);
        }
        let member = match self.actions[a].group {
            Some(h) => h == g,
            None => false,
        };
        if member {
            self.detach_member(g, a);
        }
    }

    /// Sets the exclusion policy of group `g`; the checked states are not
    /// revisited.
    pub fn set_exclusion_policy(&mut self, g: usize, policy: ExclusionPolicy)
        requires
            old(self).wf(),
            g < old(self)@.groups.len(),
        ensures
            final(self).wf(),
            final(self)@ == with_group_view(
                old(self)@,
                g as int,
                GroupView { exclusion: policy, ..old(self)@.groups[g as int] },
            ),
            forall|h: int|
                0 <= h < old(self)@.groups.len() && exclusive_consistent(old(self)@, h) && (h != g
                    || policy == ExclusionPolicy::NonExclusive || old(self)@.groups[h].exclusion
                    != ExclusionPolicy::NonExclusive) ==> #[trigger] exclusive_consistent(final(self)@, h),
    {
        self.groups[g].exclusion = policy;
        proof {
            let v = old(self)@;
            let w = with_group_view(v, g as int, GroupView { exclusion: policy, ..v.groups[g as int] });
            assert(self@.groups =~= w.groups);
            assert(self@.actions =~= w.actions);
            lemma_group_fields(v, g as int, GroupView { exclusion: policy, ..v.groups[g as int] });
        }
    }

    /// Makes group `g` exclusive (`Exclusive`) or not (`NonExclusive`).
    pub fn set_exclusive(&mut self, g: usize, exclusive: bool)
        requires
            old(self).wf(),
            g < old(self)@.groups.len(),
        ensures
            final(self).wf(),
            final(self)@ == with_group_view(
                old(self)@,
                g as int,
                GroupView {
                    exclusion: if exclusive {
                        ExclusionPolicy::Exclusive
                    } else {
                        ExclusionPolicy::NonExclusive
                    },
                    ..old(self)@.groups[g as int]
                },
            ),
    {
        let policy = if exclusive {
            ExclusionPolicy::Exclusive
        } else {
            ExclusionPolicy::NonExclusive
        };
        self.set_exclusion_policy(g, policy);
    }

    /// Enables or disables group `g`, and with it the actions it holds.
    pub fn set_group_enabled(&mut self, g: usize, enabled: bool)
        requires
            old(self).wf(),
            g < old(self)@.groups.len(),
        ensures
            final(self).wf(),
            final(self)@ == with_group_view(
                old(self)@,
                g as int,
                GroupView { enabled, ..old(self)@.groups[g as int] },
            ),
            keeps_consistency(old(self)@, final(self)@),
    {
        self.groups[g].enabled = enabled;
        proof {
            let v = old(self)@;
            let w = with_group_view(v, g as int, GroupView { enabled, ..v.groups[g as int] });
            assert(self@.groups =~= w.groups);
            assert(self@.actions =~= w.actions);
            lemma_group_fields(v, g as int, GroupView { enabled, ..v.groups[g as int] });
        }
    }

    /// Shows or hides group `g`, and with it the actions it holds.
    pub fn set_group_visible(&mut self, g: usize, visible: bool)
        requires
            old(self).wf(),
            g < old(self)@.groups.len(),
        ensures
            final(self).wf(),
            final(self)@ == with_group_view(
                old(self)@,
                g as int,
                GroupView { visible, ..old(self)@.groups[g as int] },
            ),
            keeps_consistency(old(self)@, final(self)@),
    {
        self.groups[g].visible = visible;
        proof {
            let v = old(self)@;
            let w = with_group_view(v, g as int, GroupView { visible, ..v.groups[g as int] });
            assert(self@.groups =~= w.groups);
            assert(self@.actions =~= w.actions);
            lemma_group_fields(v, g as int, GroupView { visible, ..v.groups[g as int] });
        }
    }
}

} // verus!
