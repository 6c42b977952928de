//! Popup menus (`QMenu`): the entries over a set of actions, the highlighted
//! entry, keyboard and mouse navigation, mnemonics, and where the menu and
//! its sub-menus open.
//!
//! A menu decides for its own level; the caller holding a cascade gives an
//! event to the deepest open sub-menu first, converts that sub-menu's outcome
//! with [`Menu::outcome_from_child`], and opens a sub-menu when an outcome
//! asks for it ([`MenuOutcome::OpenSubmenu`], [`Menu::open_submenu_at`]).

use vstd::prelude::*;

use crate::action::{effectively_enabled, effectively_visible, text_mnemonic, ActionSet, ActionSetView};
use crate::action_keys::{
    key_char, normalize_key, normalize_modifiers, spec_normalize_key, spec_normalize_modifiers, DOWN,
    END, ENTER, ESCAPE, HOME, LEFT, MOD_ALT, MOD_SHIFT, PAGE_DOWN, PAGE_UP, RETURN, RIGHT, SPACE, UP,
};
use crate::geometry::{Point, Rect, Size};
use crate::text::str_to_string;

verus! {

/// Width of the menu frame.
pub const FRAME: i32 = 1;

/// Space above the first and below the last entry.
pub const V_PADDING: i32 = 4;

/// Height of a separator entry.
pub const SEPARATOR_HEIGHT: i32 = 9;

/// Narrowest menu.
pub const MIN_WIDTH: i32 = 120;

/// How far a sub-menu overlaps its parent.
pub const SUBMENU_OVERLAP: i32 = 2;

/// One entry of a menu: an action of the action set, and the sub-menu the
/// action opens, by identifier, if it is a menu's action.
#[derive(Debug, Clone, Copy, PartialEq, Eq, Structural)]
pub struct MenuEntry {
    pub action: usize,
    pub submenu: Option<u64>,
}

/// What an input event did to a menu.
#[derive(Debug, Clone, Copy, PartialEq, Eq, Structural)]
pub enum MenuOutcome {
    /// The event was not used.
    Ignored,
    /// The event was consumed.
    Handled,
    /// The menu closed itself (Escape, or a click outside).
    Closed,
    /// Left was pressed with no sub-menu to close.
    NavigateLeft,
    /// Right was pressed on an entry without a sub-menu.
    NavigateRight,
    /// The sub-menu of this entry is to open ([`Menu::open_submenu_at`]),
    /// its first entry highlighted when the flag is set.
    OpenSubmenu(usize, bool),
    /// This action was chosen; the menu is hidden.
    Activate(usize),
}

/// A menu as plain values.
pub struct MenuView {
    pub title: Seq<char>,
    pub entries: Seq<MenuEntry>,
    pub active: Option<nat>,
    pub open_submenu: Option<nat>,
    pub visible: bool,
    pub geometry: Rect,
    pub popup_bounds: Option<Rect>,
    pub last_triggered: Option<usize>,
}

/// The states a menu keeps: the highlighted entry and the entry whose
/// sub-menu is open are entries, the latter one with a sub-menu.
pub open spec fn menu_wf(v: MenuView) -> bool {
    &&& v.entries.len() < usize::MAX
    &&& (v.active matches Some(i) ==> i < v.entries.len())
    &&& (v.open_submenu matches Some(i) ==> i < v.entries.len() && v.entries[i as int].submenu is Some)
}

/// Every entry names an action of `set`.
pub open spec fn entries_in(v: MenuView, set: ActionSetView) -> bool {
    forall|i: int| 0 <= i < v.entries.len() ==> (#[trigger] v.entries[i]).action < set.actions.len()
}

/// The first entry for `action` from `k` on.
pub open spec fn position_from(es: Seq<MenuEntry>, action: usize, k: int) -> Option<nat>
    decreases es.len() - k,
{
    if k < 0 || k >= es.len() {
        None
    } else if es[k].action == action {
        Some(k as nat)
    } else {
        position_from(es, action, k + 1)
    }
}

/// The entry for `action`, if any.
pub open spec fn position_of(es: Seq<MenuEntry>, action: usize) -> Option<nat> {
    position_from(es, action, 0)
}

/// Entry `i` can be highlighted and chosen: visible, enabled, no separator.
pub open spec fn selectable(set: ActionSetView, v: MenuView, i: int) -> bool {
    0 <= i < v.entries.len() && {
        let a = v.entries[i].action as int;
        effectively_visible(set, a) && !set.actions[a].separator && effectively_enabled(set, a)
    }
}

/// Entry `i` opens a sub-menu.
pub open spec fn has_submenu(v: MenuView, i: int) -> bool {
    0 <= i < v.entries.len() && v.entries[i].submenu is Some
}

/// A found entry for `action` lies at or after `k` and holds that action.
pub proof fn lemma_position_from(es: Seq<MenuEntry>, action: usize, k: int)
    ensures
        position_from(es, action, k) matches Some(p) ==> k <= p < es.len() && es[p as int].action == action,
    decreases es.len() - k,
{
    if 0 <= k < es.len() && es[k].action != action {
        lemma_position_from(es, action, k + 1);
    }
}

/// The entry under a point is an entry.
pub proof fn lemma_index_at_from(set: ActionSetView, v: MenuView, h: int, pos: Point, k: int)
    ensures
        index_at_from(set, v, h, pos, k) matches Some(i) ==> k <= i < v.entries.len(),
    decreases v.entries.len() - k,
{
    if 0 <= k < v.entries.len() && !entry_rect(set, v, h, k).spec_contains(pos) {
        lemma_index_at_from(set, v, h, pos, k + 1);
    }
}

/// The entries answering to `c` from `k` on are entries at or after `k`
/// that answer to it.
pub proof fn lemma_mnemonic_matches(set: ActionSetView, v: MenuView, c: char, k: int)
    ensures
        forall|j: int|
            0 <= j < mnemonic_matches(set, v, c, k).len() ==> k <= #[trigger] mnemonic_matches(set, v, c, k)[j]
                < v.entries.len() && mnemonic_match(set, v, mnemonic_matches(set, v, c, k)[j] as int, c),
    decreases v.entries.len() - k,
{
    if 0 <= k < v.entries.len() {
        lemma_mnemonic_matches(set, v, c, k + 1);
        let rest = mnemonic_matches(set, v, c, k + 1);
        if mnemonic_match(set, v, k, c) {
            let all = seq![k as nat] + rest;
            assert forall|j: int| 0 <= j < all.len() implies k <= #[trigger] all[j] < v.entries.len() && mnemonic_match(
                set,
                v,
                all[j] as int,
                c,
            ) by {
                if j > 0 {
                    assert(all[j] == rest[j - 1]);
                }
            }
        }
    }
}

/// What `first_after` finds is one of the sequence.
pub proof fn lemma_first_after_in(ms: Seq<nat>, cur: nat)
    ensures
        first_after(ms, cur) matches Some(f) ==> ms.contains(f) && f > cur,
    decreases ms.len(),
{
    if ms.len() > 0 && ms[0] <= cur {
        lemma_first_after_in(ms.drop_first(), cur);
        match first_after(ms.drop_first(), cur) {
            Some(f) => {
                let j = choose|j: int| 0 <= j < ms.drop_first().len() && ms.drop_first()[j] == f;
                assert(ms[j + 1] == f);
            },
            None => {},
        }
    }
    if ms.len() > 0 && ms[0] > cur {
        assert(ms[0] == ms[0]);
    }
}

/// `removeAction`: the entry for `action` goes; an open sub-menu of that
/// entry closes, and the highlight and the open sub-menu follow the entries.
pub open spec fn spec_remove(v: MenuView, action: usize) -> MenuView {
    match position_of(v.entries, action) {
        Some(pos) => MenuView {
            entries: v.entries.remove(pos as int),
            open_submenu: match v.open_submenu {
                Some(i) => if i == pos {
                    None
                } else if i > pos {
                    Some((i - 1) as nat)
                } else {
                    Some(i)
                },
                None => None,
            },
            active: match v.active {
                Some(a) => if a == pos {
                    None
                } else if a > pos {
                    Some((a - 1) as nat)
                } else {
                    Some(a)
                },
                None => None,
            },
            ..v
        },
        None => v,
    }
}

/// `addAction`: the entry goes to the end, moved there if present.
pub open spec fn spec_add(v: MenuView, e: MenuEntry) -> MenuView {
    let w = spec_remove(v, e.action);
    MenuView { entries: w.entries.push(e), ..w }
}

/// `insertAction`: the entry goes before `index` (at most the end), moved
/// there if present; the sub-menu closes and nothing stays highlighted.
pub open spec fn spec_insert(v: MenuView, index: int, e: MenuEntry) -> MenuView {
    let w = spec_remove(v, e.action);
    let at = if index < w.entries.len() {
        index
    } else {
        w.entries.len() as int
    };
    MenuView { entries: w.entries.insert(at, e), open_submenu: None, active: None, ..w }
}

/// Where `popup(pos)` shows a menu of size `size`: kept inside the popup
/// bounds, opening upwards from `pos` when it overflows the bottom and there
/// is room, shifted left when it overflows the right.
pub open spec fn popup_geometry_of(v: MenuView, pos: Point, size: Size) -> Rect {
    match v.popup_bounds {
        Some(b) => {
            let x0 = if pos.x + size.width > b.x + b.width {
                b.x + b.width - size.width
            } else {
                pos.x as int
            };
            let y0 = if pos.y + size.height > b.y + b.height {
                if pos.y - size.height >= b.y {
                    pos.y - size.height
                } else {
                    b.y + b.height - size.height
                }
            } else {
                pos.y as int
            };
            Rect {
                x: (if x0 > b.x {
                    x0
                } else {
                    b.x as int
                }) as i32,
                y: (if y0 > b.y {
                    y0
                } else {
                    b.y as int
                }) as i32,
                width: size.width,
                height: size.height,
            }
        },
        None => Rect { x: pos.x, y: pos.y, width: size.width, height: size.height },
    }
}

/// `x` is an `i32`.
pub open spec fn in_i32(x: int) -> bool {
    i32::MIN <= x <= i32::MAX
}

/// `popup_geometry_of` can be computed in `i32`: every value it forms, in
/// the branches it takes, lies within the range.
pub open spec fn popup_fits(v: MenuView, pos: Point, size: Size) -> bool {
    match v.popup_bounds {
        None => true,
        Some(b) => {
            let right = b.x + b.width;
            let bottom = b.y + b.height;
            &&& in_i32(pos.x + size.width)
            &&& in_i32(right)
            &&& pos.x + size.width > right ==> in_i32(right - size.width)
            &&& in_i32(pos.y + size.height)
            &&& in_i32(bottom)
            &&& pos.y + size.height > bottom ==> in_i32(pos.y - size.height) && (pos.y - size.height
                < b.y ==> in_i32(bottom - size.height))
        },
    }
}

/// Height of entry `i`: nothing when hidden, a separator's height, or `h`.
pub open spec fn entry_height(set: ActionSetView, v: MenuView, h: int, i: int) -> int {
    let a = v.entries[i].action as int;
    if !effectively_visible(set, a) {
        0
    } else if set.actions[a].separator {
        SEPARATOR_HEIGHT as int
    } else {
        h
    }
}

/// Top of entry `k`: the padding and the entries above it.
pub open spec fn entry_top(set: ActionSetView, v: MenuView, h: int, k: int) -> int
    decreases k,
{
    if k <= 0 {
        V_PADDING as int
    } else {
        entry_top(set, v, h, k - 1) + entry_height(set, v, h, k - 1)
    }
}

/// The rectangle of entry `i` in menu coordinates, entries being `h` high.
pub open spec fn entry_rect(set: ActionSetView, v: MenuView, h: int, i: int) -> Rect {
    let y = entry_top(set, v, h, i);
    if entry_height(set, v, h, i) == 0 {
        Rect { x: FRAME, y: y as i32, width: 0, height: 0 }
    } else {
        Rect {
            x: FRAME,
            y: y as i32,
            width: (v.geometry.width - 2 * FRAME) as i32,
            height: entry_height(set, v, h, i) as i32,
        }
    }
}

/// The entry geometry can be computed in `i32`: entries `h` high (as the
/// font gives them, at least 24) of actions of `set`, the width inside the
/// frame, and the bottom of the last entry.
pub open spec fn entries_fit(set: ActionSetView, v: MenuView, h: int) -> bool {
    &&& 24 <= h
    &&& entries_in(v, set)
    &&& v.geometry.width - 2 * FRAME >= i32::MIN
    &&& entry_top(set, v, h, v.entries.len() as int) <= i32::MAX
}

/// The first entry from `k` on whose rectangle contains `pos`.
pub open spec fn index_at_from(set: ActionSetView, v: MenuView, h: int, pos: Point, k: int) -> Option<nat>
    decreases v.entries.len() - k,
{
    if k < 0 || k >= v.entries.len() {
        None
    } else if entry_rect(set, v, h, k).spec_contains(pos) {
        Some(k as nat)
    } else {
        index_at_from(set, v, h, pos, k + 1)
    }
}

/// The entry under `pos`, if any.
pub open spec fn index_at_of(set: ActionSetView, v: MenuView, h: int, pos: Point) -> Option<nat> {
    index_at_from(set, v, h, pos, 0)
}

/// Stepping the highlight from `start` by `step` places (of `n`), wrapping.
pub open spec fn step_index(start: int, n: int, step: int, forward: bool) -> int {
    if forward {
        (start + step) % n
    } else {
        (start + n - step) % n
    }
}

/// The first selectable entry reached from `start` in steps `step` to `n`.
pub open spec fn step_target(set: ActionSetView, v: MenuView, start: int, forward: bool, step: int) -> Option<nat>
    decreases v.entries.len() + 1 - step,
{
    let n = v.entries.len() as int;
    if step < 1 || step > n {
        None
    } else if selectable(set, v, step_index(start, n, step, forward)) {
        Some(step_index(start, n, step, forward) as nat)
    } else {
        step_target(set, v, start, forward, step + 1)
    }
}

/// The highlight moved to the next (or previous) selectable entry, wrapping
/// around; from nothing, forward starts at the first entry and backward at
/// the last.
pub open spec fn spec_step(set: ActionSetView, v: MenuView, forward: bool) -> MenuView {
    let n = v.entries.len() as int;
    if n == 0 {
        v
    } else {
        let start = match v.active {
            Some(a) => a as int,
            None => if forward {
                n - 1
            } else {
                0
            },
        };
        match step_target(set, v, start, forward, 1) {
            Some(i) => MenuView { active: Some(i), ..v },
            None => v,
        }
    }
}

/// The first selectable entry from `k` on.
pub open spec fn first_selectable_from(set: ActionSetView, v: MenuView, k: int) -> Option<nat>
    decreases v.entries.len() - k,
{
    if k < 0 || k >= v.entries.len() {
        None
    } else if selectable(set, v, k) {
        Some(k as nat)
    } else {
        first_selectable_from(set, v, k + 1)
    }
}

/// The last selectable entry before `k`.
pub open spec fn last_selectable_before(set: ActionSetView, v: MenuView, k: int) -> Option<nat>
    decreases k,
{
    if k <= 0 || k > v.entries.len() {
        None
    } else if selectable(set, v, k - 1) {
        Some((k - 1) as nat)
    } else {
        last_selectable_before(set, v, k - 1)
    }
}

/// The menu hidden: the sub-menu closed and nothing highlighted.
pub open spec fn spec_hide(v: MenuView) -> MenuView {
    if v.visible {
        MenuView { open_submenu: None, visible: false, active: None, ..v }
    } else {
        MenuView { open_submenu: None, ..v }
    }
}

/// Choosing entry `idx`: a disabled entry or a separator does nothing; an
/// entry with a sub-menu is highlighted and asks for its sub-menu; any other
/// hides the menu and is reported as activated.
pub open spec fn spec_activate(set: ActionSetView, v: MenuView, idx: int) -> (MenuView, MenuOutcome) {
    if idx < 0 || idx >= v.entries.len() {
        (v, MenuOutcome::Handled)
    } else {
        let a = v.entries[idx].action;
        if !effectively_enabled(set, a as int) || set.actions[a as int].separator {
            (v, MenuOutcome::Handled)
        } else if v.entries[idx].submenu is Some {
            (MenuView { active: Some(idx as nat), ..v }, MenuOutcome::OpenSubmenu(idx as usize, true))
        } else {
            (MenuView { last_triggered: Some(a), ..spec_hide(v) }, MenuOutcome::Activate(a))
        }
    }
}

/// Entry `i` answers to mnemonic `c`: visible, no separator, `c` its mnemonic.
pub open spec fn mnemonic_match(set: ActionSetView, v: MenuView, i: int, c: char) -> bool {
    0 <= i < v.entries.len() && {
        let a = v.entries[i].action as int;
        effectively_visible(set, a) && !set.actions[a].separator && text_mnemonic(set.actions[a].text)
            == Some(c)
    }
}

/// The entries from `k` on that answer to `c`, in order.
pub open spec fn mnemonic_matches(set: ActionSetView, v: MenuView, c: char, k: int) -> Seq<nat>
    decreases v.entries.len() - k,
{
    if k < 0 || k >= v.entries.len() {
        Seq::empty()
    } else if mnemonic_match(set, v, k, c) {
        seq![k as nat] + mnemonic_matches(set, v, c, k + 1)
    } else {
        mnemonic_matches(set, v, c, k + 1)
    }
}

/// The first of `ms` after `cur`, if any.
pub open spec fn first_after(ms: Seq<nat>, cur: nat) -> Option<nat>
    decreases ms.len(),
{
    if ms.len() == 0 {
        None
    } else if ms[0] > cur {
        Some(ms[0])
    } else {
        first_after(ms.drop_first(), cur)
    }
}

/// A mnemonic key: a single entry with that mnemonic is chosen; several are
/// highlighted in turn.
pub open spec fn spec_mnemonic(set: ActionSetView, v: MenuView, key: u32, modifiers: u32) -> (MenuView, MenuOutcome) {
    let allowed = modifiers & !(MOD_ALT | MOD_SHIFT) == 0;
    let c = if (0x30 <= key <= 0x39) || (0x41 <= key <= 0x5A) {
        Some(key as char)
    } else {
        None
    };
    if !allowed || c is None {
        (v, MenuOutcome::Ignored)
    } else {
        let ms = mnemonic_matches(set, v, c->0, 0);
        if ms.len() == 0 {
            (v, MenuOutcome::Ignored)
        } else {
            let next = match v.active {
                Some(cur) => if ms.len() > 1 {
                    match first_after(ms, cur) {
                        Some(i) => i,
                        None => ms[0],
                    }
                } else {
                    ms[0]
                },
                None => ms[0],
            };
            if ms.len() == 1 {
                spec_activate(set, v, next as int)
            } else {
                (MenuView { active: Some(next), ..v }, MenuOutcome::Handled)
            }
        }
    }
}

/// A key for this menu level (`QMenu::keyPressEvent`, after the key and
/// modifiers are normalized): Up and Down step the highlight, Home and Page
/// Up go to the first entry, End and Page Down to the last, Left and Right
/// navigate, Return, Enter and Space choose, Escape closes, others are
/// mnemonics.
pub open spec fn spec_key(set: ActionSetView, v: MenuView, key: u32, modifiers: u32) -> (MenuView, MenuOutcome) {
    let k = spec_normalize_key(key);
    let m = spec_normalize_modifiers(modifiers);
    if k == UP {
        (spec_step(set, v, false), MenuOutcome::Handled)
    } else if k == DOWN {
        (spec_step(set, v, true), MenuOutcome::Handled)
    } else if k == HOME || k == PAGE_UP {
        (match first_selectable_from(set, v, 0) {
            Some(i) => MenuView { active: Some(i), ..v },
            None => v,
        }, MenuOutcome::Handled)
    } else if k == END || k == PAGE_DOWN {
        (match last_selectable_before(set, v, v.entries.len() as int) {
            Some(i) => MenuView { active: Some(i), ..v },
            None => v,
        }, MenuOutcome::Handled)
    } else if k == LEFT {
        (v, MenuOutcome::NavigateLeft)
    } else if k == RIGHT {
        match v.active {
            Some(i) => if has_submenu(v, i as int) && selectable(set, v, i as int) {
                (v, MenuOutcome::OpenSubmenu(i as usize, true))
            } else {
                (v, MenuOutcome::NavigateRight)
            },
            None => (v, MenuOutcome::NavigateRight),
        }
    } else if k == RETURN || k == ENTER || k == SPACE {
        match v.active {
            Some(i) => spec_activate(set, v, i as int),
            None => (v, MenuOutcome::Handled),
        }
    } else if k == ESCAPE {
        (spec_hide(v), MenuOutcome::Closed)
    } else {
        spec_mnemonic(set, v, k, m)
    }
}

/// Turning the open sub-menu's outcome into this menu's: a closed sub-menu
/// or Left closes it; an activation hides this menu too and is passed on.
pub open spec fn spec_from_child(v: MenuView, o: MenuOutcome) -> (MenuView, MenuOutcome) {
    match o {
        MenuOutcome::Ignored => (v, MenuOutcome::Ignored),
        MenuOutcome::Closed | MenuOutcome::NavigateLeft => (
            MenuView { open_submenu: None, ..v },
            MenuOutcome::Handled,
        ),
        MenuOutcome::NavigateRight => (v, MenuOutcome::NavigateRight),
        MenuOutcome::Activate(a) => (
            MenuView { last_triggered: Some(a), ..spec_hide(v) },
            MenuOutcome::Activate(a),
        ),
        _ => (v, MenuOutcome::Handled),
    }
}

/// `pos` lies on this menu's own area (while it is shown).
pub open spec fn covers_own(v: MenuView, pos: Point) -> bool {
    v.visible && (Rect { x: 0, y: 0, width: v.geometry.width, height: v.geometry.height }).spec_contains(pos)
}

/// The mouse moved to `pos` on this level: a selectable entry under it is
/// highlighted and opens its sub-menu, or closes another; elsewhere on the
/// menu the move is consumed.
pub open spec fn spec_mouse_move(set: ActionSetView, v: MenuView, h: int, pos: Point) -> (MenuView, MenuOutcome) {
    match index_at_of(set, v, h, pos) {
        Some(i) => if selectable(set, v, i as int) && v.active != Some(i) {
            if has_submenu(v, i as int) {
                (MenuView { active: Some(i), ..v }, MenuOutcome::OpenSubmenu(i as usize, false))
            } else {
                (MenuView { active: Some(i), open_submenu: None, ..v }, MenuOutcome::Handled)
            }
        } else {
            (v, MenuOutcome::Handled)
        },
        None => (v, if covers_own(v, pos) {
            MenuOutcome::Handled
        } else {
            MenuOutcome::Ignored
        }),
    }
}

/// A mouse button goes down at `pos` on this level: outside the menu it
/// closes; on a selectable entry with a sub-menu, that sub-menu opens or,
/// when open, closes.
pub open spec fn spec_mouse_press(set: ActionSetView, v: MenuView, h: int, pos: Point) -> (MenuView, MenuOutcome) {
    if !covers_own(v, pos) {
        (spec_hide(v), MenuOutcome::Closed)
    } else {
        match index_at_of(set, v, h, pos) {
            Some(i) => if selectable(set, v, i as int) && has_submenu(v, i as int) {
                if v.open_submenu == Some(i) {
                    (MenuView { open_submenu: None, ..v }, MenuOutcome::Handled)
                } else {
                    (MenuView { active: Some(i), ..v }, MenuOutcome::OpenSubmenu(i as usize, false))
                }
            } else {
                (v, MenuOutcome::Handled)
            },
            None => (v, MenuOutcome::Handled),
        }
    }
}

/// A mouse button goes up at `pos` on this level: a selectable entry without
/// a sub-menu is chosen.
pub open spec fn spec_mouse_release(set: ActionSetView, v: MenuView, h: int, pos: Point) -> (MenuView, MenuOutcome) {
    match index_at_of(set, v, h, pos) {
        Some(i) => if selectable(set, v, i as int) && !has_submenu(v, i as int) {
            spec_activate(set, v, i as int)
        } else {
            (v, MenuOutcome::Handled)
        },
        None => (v, if covers_own(v, pos) {
            MenuOutcome::Handled
        } else {
            MenuOutcome::Ignored
        }),
    }
}

/// Where the sub-menu of entry `idx` opens, with size `size`, and the popup
/// bounds it gets (this menu's bounds in its own coordinates): beside this
/// menu, level with the entry, kept inside the bounds.
pub open spec fn submenu_placement(set: ActionSetView, v: MenuView, h: int, idx: int, size: Size) -> (Rect, Option<Rect>) {
    let item = entry_rect(set, v, h, idx);
    let g = v.geometry;
    let local = match v.popup_bounds {
        Some(b) => Some(Rect { x: (b.x - g.x) as i32, y: (b.y - g.y) as i32, width: b.width, height: b.height }),
        None => None,
    };
    let x0 = g.width - SUBMENU_OVERLAP;
    let y0 = item.y - V_PADDING;
    match local {
        Some(b) => {
            let x = if x0 + size.width > b.x + b.width {
                if SUBMENU_OVERLAP - size.width > b.x {
                    SUBMENU_OVERLAP - size.width
                } else {
                    b.x as int
                }
            } else {
                x0
            };
            let y1 = if y0 + size.height > b.y + b.height {
                b.y + b.height - size.height
            } else {
                y0
            };
            let y = if y1 > b.y {
                y1
            } else {
                b.y as int
            };
            (Rect { x: x as i32, y: y as i32, width: size.width, height: size.height }, local)
        },
        None => (Rect { x: x0 as i32, y: y0 as i32, width: size.width, height: size.height }, local),
    }
}

/// `submenu_placement` can be computed in `i32`: every value it forms, in
/// the branches it takes, lies within the range.
pub open spec fn submenu_fits(set: ActionSetView, v: MenuView, h: int, idx: int, size: Size) -> bool {
    let item = entry_rect(set, v, h, idx);
    let g = v.geometry;
    let x0 = g.width - SUBMENU_OVERLAP;
    let y0 = item.y - V_PADDING;
    &&& in_i32(x0)
    &&& match v.popup_bounds {
        None => true,
        Some(pb) => {
            let bx = pb.x - g.x;
            let by = pb.y - g.y;
            &&& in_i32(bx)
            &&& in_i32(by)
            &&& in_i32(x0 + size.width)
            &&& in_i32(bx + pb.width)
            &&& x0 + size.width > bx + pb.width ==> in_i32(SUBMENU_OVERLAP - size.width)
            &&& in_i32(y0 + size.height)
            &&& in_i32(by + pb.height)
            &&& y0 + size.height > by + pb.height ==> in_i32(by + pb.height - size.height)
        },
    }
}

/// A popup menu.
pub struct Menu {
    title: String,
    entries: Vec<MenuEntry>,
    active: Option<usize>,
    open_submenu: Option<usize>,
    visible: bool,
    geometry: Rect,
    popup_bounds: Option<Rect>,
    last_triggered: Option<usize>,
}

impl View for Menu {
    type V = MenuView;

    closed spec fn view(&self) -> MenuView {
        MenuView {
            title: self.title@,
            entries: self.entries@,
            active: match self.active {
                Some(i) => Some(i as nat),
                None => None,
            },
            open_submenu: match self.open_submenu {
                Some(i) => Some(i as nat),
                None => None,
            },
            visible: self.visible,
            geometry: self.geometry,
            popup_bounds: self.popup_bounds,
            last_triggered: self.last_triggered,
        }
    }
}

impl Menu {
    /// The invariant of the menu.
    pub open spec fn wf(&self) -> bool {
        menu_wf(self@)
    }

    /// A hidden menu titled `title`, without entries, 120 by 8.
    pub fn new(title: &str) -> (r: Menu)
        ensures
            r.wf(),
            r@ == (MenuView {
                title: title@,
                entries: Seq::empty(),
                active: None,
                open_submenu: None,
                visible: false,
                geometry: Rect { x: 0, y: 0, width: MIN_WIDTH, height: 8 },
                popup_bounds: None,
                last_triggered: None,
            }),
    {
        let r = Menu {
            title: str_to_string(title),
            entries: Vec::new(),
            active: None,
            open_submenu: None,
            visible: false,
            geometry: Rect::new(0, 0, MIN_WIDTH, 2 * V_PADDING),
            popup_bounds: None,
            last_triggered: None,
        };
        assert(r@.entries =~= Seq::<MenuEntry>::empty());
        r
    }

    pub fn title(&self) -> (r: &str)
        ensures
            r@ == self@.title,
    {
        self.title.as_str()
    }

    pub fn set_title(&mut self, title: &str)
        requires
            old(self).wf(),
        ensures
            final(self).wf(),
            final(self)@ == (MenuView { title: title@, ..old(self)@ }),
    {
        self.title = str_to_string(title);
    }

    /// The entries, in order.
    pub fn entries(&self) -> (r: &[MenuEntry])
        ensures
            r@ == self@.entries,
    {
        self.entries.as_slice()
    }

    /// The actions of the entries, in order.
    pub fn actions(&self) -> (r: Vec<usize>)
        ensures
            r@ == self@.entries.map_values(|e: MenuEntry| e.action),
    {
        let mut out: Vec<usize> = Vec::new();
        let mut i: usize = 0;
        while i < self.entries.len()
            invariant
                0 <= i <= self@.entries.len(),
                out@ == self@.entries.subrange(0, i as int).map_values(|e: MenuEntry| e.action),
            decreases self@.entries.len() - i,
        {
            out.push(self.entries[i].action);
            i = i + 1;
            assert(out@ =~= self@.entries.subrange(0, i as int).map_values(|e: MenuEntry| e.action));
        }
        assert(self@.entries.subrange(0, i as int) =~= self@.entries);
        out
    }

    pub fn is_empty(&self) -> (r: bool)
        ensures
            r == (self@.entries.len() == 0),
    {
        self.entries.len() == 0
    }

    pub fn is_visible(&self) -> (r: bool)
        ensures
            r == self@.visible,
    {
        self.visible
    }

    pub fn geometry(&self) -> (r: Rect)
        ensures
            r == self@.geometry,
    {
        self.geometry
    }

    /// The highlighted entry's action, if any.
    pub fn active_action(&self) -> (r: Option<usize>)
        requires
            self.wf(),
        ensures
            r == match self@.active {
                Some(i) => Some(self@.entries[i as int].action),
                None => None,
            },
    {
        match self.active {
            Some(i) => Some(self.entries[i].action),
            None => None,
        }
    }

    /// The highlighted entry, if any.
    pub fn active_index(&self) -> (r: Option<usize>)
        ensures
            r == match self@.active {
                Some(i) => Some(i as usize),
                None => None,
            },
    {
        self.active
    }

    /// The open sub-menu, by identifier, if any.
    pub fn open_submenu(&self) -> (r: Option<u64>)
        requires
            self.wf(),
        ensures
            r == match self@.open_submenu {
                Some(i) => self@.entries[i as int].submenu,
                None => None,
            },
    {
        match self.open_submenu {
            Some(i) => self.entries[i].submenu,
            None => None,
        }
    }

    /// The action chosen the last time this menu or a sub-menu was activated.
    pub fn last_triggered_action(&self) -> (r: Option<usize>)
        ensures
            r == self@.last_triggered,
    {
        self.last_triggered
    }

    pub fn popup_bounds(&self) -> (r: Option<Rect>)
        ensures
            r == self@.popup_bounds,
    {
        self.popup_bounds
    }

    /// Sets the area, in the coordinates of the menu's geometry, that the
    /// popup stays inside.
    pub fn set_popup_bounds(&mut self, bounds: Option<Rect>)
        requires
            old(self).wf(),
        ensures
            final(self).wf(),
            final(self)@ == (MenuView { popup_bounds: bounds, ..old(self)@ }),
    {
        self.popup_bounds = bounds;
    }

    fn position(&self, action: usize) -> (r: Option<usize>)
        requires
            self.wf(),
        ensures
            r == match position_of(self@.entries, action) {
                Some(p) => Some(p as usize),
                None => None,
            },
            r matches Some(p) ==> p < self@.entries.len(),
            position_of(self@.entries, action) matches Some(p) ==> p < self@.entries.len()
                && self@.entries[p as int].action == action,
    {
        proof {
            lemma_position_from(self@.entries, action, 0);
        }
        let mut k: usize = 0;
        while k < self.entries.len()
            invariant
                0 <= k <= self@.entries.len(),
                position_from(self@.entries, action, k as int) == position_of(self@.entries, action),
            decreases self@.entries.len() - k,
        {
            if self.entries[k].action == action {
                return Some(k);
            }
            k = k + 1;
        }
        None
    }

    /// Removes the entry for `action` ([`spec_remove`]).
    pub fn remove_action(&mut self, action: usize)
        requires
            old(self).wf(),
        ensures
            final(self).wf(),
            final(self)@ == spec_remove(old(self)@, action),
            final(self)@.entries.len() <= old(self)@.entries.len(),
    {
        match self.position(action) {
            Some(pos) => {
                let ghost v0 = self@;
                if self.open_submenu == Some(pos) {
                    self.open_submenu = None;
                }
                let _ = self.entries.remove(pos);
                match self.open_submenu {
                    Some(i) => if i > pos {
                        self.open_submenu = Some(i - 1);
                    },
                    None => {},
                }
                self.active = match self.active {
                    Some(a) => if a == pos {
                        None
                    } else if a > pos {
                        Some(a - 1)
                    } else {
                        Some(a)
                    },
                    None => None,
                };
                assert(self@.entries =~= v0.entries.remove(pos as int));
            },
            None => {},
        }
    }

    /// Appends `entry`, moving it to the end if its action is present ([`spec_add`]).
    pub fn add_entry(&mut self, entry: MenuEntry)
        requires
            old(self).wf(),
            old(self)@.entries.len() < usize::MAX - 1,
        ensures
            final(self).wf(),
            final(self)@ == spec_add(old(self)@, entry),
    {
        self.remove_action(entry.action);
        self.entries.push(entry);
    }

    /// Appends `action` ([`spec_add`] of an entry without sub-menu).
    pub fn add_action(&mut self, action: usize)
        requires
            old(self).wf(),
            old(self)@.entries.len() < usize::MAX - 1,
        ensures
            final(self).wf(),
            final(self)@ == spec_add(old(self)@, MenuEntry { action, submenu: None }),
    {
        self.add_entry(MenuEntry { action, submenu: None });
    }

    /// Creates an action with `text` in `set` and appends it; returns it.
    pub fn add_new_action(&mut self, set: &mut ActionSet, text: &str) -> (a: usize)
        requires
            old(self).wf(),
            old(set).wf(),
            old(self)@.entries.len() < usize::MAX - 1,
            old(set)@.actions.len() < usize::MAX,
        ensures
            final(self).wf(),
            final(set).wf(),
            a == old(set)@.actions.len(),
            final(set)@.actions.len() == a + 1,
            final(set)@.actions[a as int].text == text@,
            final(self)@ == spec_add(old(self)@, MenuEntry { action: a, submenu: None }),
    {
        let a = set.add_action(text);
        self.add_action(a);
        a
    }

    /// Creates a separator action in `set` and appends it; returns it.
    pub fn add_separator(&mut self, set: &mut ActionSet) -> (a: usize)
        requires
            old(self).wf(),
            old(set).wf(),
            old(self)@.entries.len() < usize::MAX - 1,
            old(set)@.actions.len() < usize::MAX,
        ensures
            final(self).wf(),
            final(set).wf(),
            a == old(set)@.actions.len(),
            final(set)@.actions.len() == a + 1,
            final(set)@.actions[a as int].separator,
            final(self)@ == spec_add(old(self)@, MenuEntry { action: a, submenu: None }),
    {
        let a = set.add_separator();
        self.add_action(a);
        a
    }

    /// Appends the action `action` of the sub-menu `submenu`.
    pub fn add_menu_action(&mut self, action: usize, submenu: u64)
        requires
            old(self).wf(),
            old(self)@.entries.len() < usize::MAX - 1,
        ensures
            final(self).wf(),
            final(self)@ == spec_add(old(self)@, MenuEntry { action, submenu: Some(submenu) }),
    {
        self.add_entry(MenuEntry { action, submenu: Some(submenu) });
    }

    /// Inserts `entry` before `index` ([`spec_insert`]).
    pub fn insert_entry(&mut self, index: usize, entry: MenuEntry)
        requires
            old(self).wf(),
            old(self)@.entries.len() < usize::MAX - 1,
        ensures
            final(self).wf(),
            final(self)@ == spec_insert(old(self)@, index as int, entry),
    {
        self.remove_action(entry.action);
        let at = if index < self.entries.len() {
            index
        } else {
            self.entries.len()
        };
        self.entries.insert(at, entry);
        self.open_submenu = None;
        self.active = None;
    }

    /// Inserts `action` before `index` ([`spec_insert`] of an entry without sub-menu).
    pub fn insert_action(&mut self, index: usize, action: usize)
        requires
            old(self).wf(),
            old(self)@.entries.len() < usize::MAX - 1,
        ensures
            final(self).wf(),
            final(self)@ == spec_insert(old(self)@, index as int, MenuEntry { action, submenu: None }),
    {
        self.insert_entry(index, MenuEntry { action, submenu: None });
    }

    /// Removes every entry; the sub-menu closes and nothing is highlighted.
    pub fn clear(&mut self)
        requires
            old(self).wf(),
        ensures
            final(self).wf(),
            final(self)@ == (MenuView { entries: Seq::empty(), open_submenu: None, active: None, ..old(self)@ }),
    {
        self.entries = Vec::new();
        self.open_submenu = None;
        self.active = None;
        assert(self@.entries =~= Seq::<MenuEntry>::empty());
    }

    /// Highlights the entry of `action` (or nothing), closing a sub-menu of
    /// another entry.
    pub fn set_active_action(&mut self, action: Option<usize>)
        requires
            old(self).wf(),
        ensures
            final(self).wf(),
            ({
                let idx = match action {
                    Some(a) => position_of(old(self)@.entries, a),
                    None => None,
                };
                final(self)@ == (MenuView {
                    active: idx,
                    open_submenu: if old(self)@.open_submenu is Some && old(self)@.open_submenu != idx {
                        None
                    } else {
                        old(self)@.open_submenu
                    },
                    ..old(self)@
                })
            }),
    {
        let idx = match action {
            Some(a) => self.position(a),
            None => None,
        };
        if self.open_submenu.is_some() && self.open_submenu != idx {
            self.open_submenu = None;
        }
        self.active = idx;
    }

    /// Where `popup(pos)` shows the menu, whose size is `size` ([`popup_geometry_of`]).
    pub fn popup_geometry(&self, pos: Point, size: Size) -> (r: Rect)
        requires
            popup_fits(self@, pos, size),
        ensures
            r == popup_geometry_of(self@, pos, size),
    {
        match self.popup_bounds {
            Some(b) => {
                let x0: i32 = if pos.x + size.width > b.x + b.width {
                    b.x + b.width - size.width
                } else {
                    pos.x
                };
                let y0: i32 = if pos.y + size.height > b.y + b.height {
                    if pos.y - size.height >= b.y {
                        pos.y - size.height
                    } else {
                        b.y + b.height - size.height
                    }
                } else {
                    pos.y
                };
                Rect::new(
                    if x0 > b.x {
                        x0
                    } else {
                        b.x
                    },
                    if y0 > b.y {
                        y0
                    } else {
                        b.y
                    },
                    size.width,
                    size.height,
                )
            },
            None => Rect::new(pos.x, pos.y, size.width, size.height),
        }
    }

    /// Shows the menu at `geometry`: the sub-menu closed, nothing highlighted.
    pub fn show_with_geometry(&mut self, geometry: Rect)
        requires
            old(self).wf(),
        ensures
            final(self).wf(),
            final(self)@ == (MenuView { open_submenu: None, active: None, geometry, visible: true, ..old(self)@ }),
    {
        self.open_submenu = None;
        self.active = None;
        self.geometry = geometry;
        self.visible = true;
    }

    /// Shows the menu, of size `size`, at `pos` (`QMenu::popup`), with the
    /// entry of `at` highlighted when given and present.
    pub fn popup_at(&mut self, pos: Point, size: Size, at: Option<usize>)
        requires
            old(self).wf(),
            popup_fits(old(self)@, pos, size),
        ensures
            final(self).wf(),
            final(self)@ == (MenuView {
                open_submenu: None,
                active: match at {
                    Some(a) => position_of(old(self)@.entries, a),
                    None => None,
                },
                geometry: popup_geometry_of(old(self)@, pos, size),
                visible: true,
                ..old(self)@
            }),
    {
        let g = self.popup_geometry(pos, size);
        self.show_with_geometry(g);
        if let Some(a) = at {
            let idx = self.position(a);
            self.active = idx;
        }
    }

    /// Hides the menu ([`spec_hide`]); returns whether it was shown.
    pub fn hide_menu(&mut self) -> (was_visible: bool)
        requires
            old(self).wf(),
        ensures
            final(self).wf(),
            final(self)@ == spec_hide(old(self)@),
            was_visible == old(self)@.visible,
    {
        self.open_submenu = None;
        if !self.visible {
            return false;
        }
        self.visible = false;
        self.active = None;
        true
    }

    /// Closes the open sub-menu.
    pub fn close_submenu(&mut self)
        requires
            old(self).wf(),
        ensures
            final(self).wf(),
            final(self)@ == (MenuView { open_submenu: None, ..old(self)@ }),
    {
        self.open_submenu = None;
    }

    fn is_selectable(&self, set: &ActionSet, i: usize) -> (r: bool)
        requires
            self.wf(),
            set.wf(),
            entries_in(self@, set@),
        ensures
            r == selectable(set@, self@, i as int),
    {
        if i >= self.entries.len() {
            return false;
        }
        let a = self.entries[i].action;
        set.is_visible(a) && !set.action(a).is_separator() && set.is_enabled(a)
    }

    fn entry_height_exec(&self, set: &ActionSet, h: i32, i: usize) -> (r: i32)
        requires
            self.wf(),
            set.wf(),
            entries_fit(set@, self@, h as int),
            i < self@.entries.len(),
        ensures
            r == entry_height(set@, self@, h as int, i as int),
            0 <= r <= h,
    {
        let a = self.entries[i].action;
        if !set.is_visible(a) {
            0
        } else if set.action(a).is_separator() {
            SEPARATOR_HEIGHT
        } else {
            h
        }
    }

    /// The rectangles of the entries, `h` high each ([`entry_rect`]).
    pub fn item_rects(&self, set: &ActionSet, h: i32) -> (r: Vec<Rect>)
        requires
            self.wf(),
            set.wf(),
            entries_fit(set@, self@, h as int),
        ensures
            r@.len() == self@.entries.len(),
            forall|i: int| 0 <= i < r@.len() ==> r@[i] == entry_rect(set@, self@, h as int, i),
    {
        let mut out: Vec<Rect> = Vec::new();
        let mut y: i32 = V_PADDING;
        let mut i: usize = 0;
        let n = self.entries.len();
        let width = self.geometry.width - 2 * FRAME;
        while i < n
            invariant
                0 <= i <= n == self@.entries.len(),
                self.wf(),
                set.wf(),
                entries_fit(set@, self@, h as int),
                width == self@.geometry.width - 2 * FRAME,
                y == entry_top(set@, self@, h as int, i as int),
                out@.len() == i,
                forall|k: int| 0 <= k < i ==> out@[k] == entry_rect(set@, self@, h as int, k),
            decreases n - i,
        {
            let eh = self.entry_height_exec(set, h, i);
            proof {
                lemma_entry_top_rises(set@, self@, h as int, i as int + 1);
            }
            let r = if eh == 0 {
                Rect::new(FRAME, y, 0, 0)
            } else {
                Rect::new(FRAME, y, width, eh)
            };
            out.push(r);
            y = y + eh;
            i = i + 1;
        }
        out
    }

    /// The entry under `pos` ([`index_at_of`]).
    pub fn index_at(&self, set: &ActionSet, h: i32, pos: Point) -> (r: Option<usize>)
        requires
            self.wf(),
            set.wf(),
            entries_fit(set@, self@, h as int),
        ensures
            r == match index_at_of(set@, self@, h as int, pos) {
                Some(i) => Some(i as usize),
                None => None,
            },
            r matches Some(i) ==> i < self@.entries.len(),
            index_at_of(set@, self@, h as int, pos) matches Some(i) ==> i < self@.entries.len(),
    {
        proof {
            lemma_index_at_from(set@, self@, h as int, pos, 0);
        }
        let rects = self.item_rects(set, h);
        let mut k: usize = 0;
        while k < rects.len()
            invariant
                0 <= k <= rects@.len() == self@.entries.len(),
                forall|i: int| 0 <= i < rects@.len() ==> rects@[i] == entry_rect(set@, self@, h as int, i),
                index_at_from(set@, self@, h as int, pos, k as int) == index_at_of(set@, self@, h as int, pos),
            decreases rects@.len() - k,
        {
            if rects[k].contains(pos) {
                return Some(k);
            }
            k = k + 1;
        }
        None
    }

    /// The rectangle of the entry of `action`, if present.
    pub fn action_geometry(&self, set: &ActionSet, h: i32, action: usize) -> (r: Option<Rect>)
        requires
            self.wf(),
            set.wf(),
            entries_fit(set@, self@, h as int),
        ensures
            r == match position_of(self@.entries, action) {
                Some(i) => Some(entry_rect(set@, self@, h as int, i as int)),
                None => None,
            },
    {
        match self.position(action) {
            Some(i) => {
                let rects = self.item_rects(set, h);
                Some(rects[i])
            },
            None => None,
        }
    }

    /// The action of the entry under `pos`, if any.
    pub fn action_at(&self, set: &ActionSet, h: i32, pos: Point) -> (r: Option<usize>)
        requires
            self.wf(),
            set.wf(),
            entries_fit(set@, self@, h as int),
        ensures
            r == match index_at_of(set@, self@, h as int, pos) {
                Some(i) => Some(self@.entries[i as int].action),
                None => None,
            },
    {
        match self.index_at(set, h, pos) {
            Some(i) => Some(self.entries[i].action),
            None => None,
        }
    }

    /// Steps the highlight ([`spec_step`]).
    pub fn step_active(&mut self, set: &ActionSet, forward: bool)
        requires
            old(self).wf(),
            set.wf(),
            entries_in(old(self)@, set@),
        ensures
            final(self).wf(),
            final(self)@ == spec_step(set@, old(self)@, forward),
    {
        let n = self.entries.len();
        if n == 0 {
            return;
        }
        let start: usize = match self.active {
            Some(a) => a,
            None => if forward {
                n - 1
            } else {
                0
            },
        };
        let mut step: usize = 1;
        while step <= n
            invariant
                1 <= step <= n + 1,
                n == self@.entries.len() > 0,
                start < n,
                start == match old(self)@.active {
                    Some(a) => a as int,
                    None => if forward {
                        n - 1
                    } else {
                        0
                    },
                },
                self.wf(),
                set.wf(),
                entries_in(self@, set@),
                self@ == old(self)@,
                step_target(set@, self@, start as int, forward, step as int) == step_target(
                    set@,
                    self@,
                    start as int,
                    forward,
                    1,
                ),
            decreases n + 1 - step,
        {
            let i = if forward {
                if step < n - start {
                    start + step
                } else {
                    step - (n - start)
                }
            } else {
                if step <= start {
                    start - step
                } else {
                    n - (step - start)
                }
            };
            proof {
                let si = step_index(start as int, n as int, step as int, forward);
                if forward {
                    if step < n - start {
                        vstd::arithmetic::div_mod::lemma_small_mod((start + step) as nat, n as nat);
                    } else {
                        vstd::arithmetic::div_mod::lemma_small_mod((start + step - n) as nat, n as nat);
                        lemma_mod_sub_n(start + step, n as int);
                    }
                } else {
                    if step <= start {
                        vstd::arithmetic::div_mod::lemma_small_mod((start - step) as nat, n as nat);
                        lemma_mod_sub_n(start + n - step, n as int);
                    } else {
                        vstd::arithmetic::div_mod::lemma_small_mod((start + n - step) as nat, n as nat);
                    }
                }
                assert(i == si);
            }
            if self.is_selectable(set, i) {
                self.active = Some(i);
                return;
            }
            step = step + 1;
        }
    }

    /// Highlights the first selectable entry.
    pub fn select_first(&mut self, set: &ActionSet)
        requires
            old(self).wf(),
            set.wf(),
            entries_in(old(self)@, set@),
        ensures
            final(self).wf(),
            final(self)@ == match first_selectable_from(set@, old(self)@, 0) {
                Some(i) => MenuView { active: Some(i), ..old(self)@ },
                None => old(self)@,
            },
    {
        let mut k: usize = 0;
        while k < self.entries.len()
            invariant
                0 <= k <= self@.entries.len(),
                self.wf(),
                set.wf(),
                entries_in(self@, set@),
                self@ == old(self)@,
                first_selectable_from(set@, self@, k as int) == first_selectable_from(set@, self@, 0),
            decreases self@.entries.len() - k,
        {
            if self.is_selectable(set, k) {
                self.active = Some(k);
                return;
            }
            k = k + 1;
        }
    }

    /// Highlights the last selectable entry.
    pub fn select_last(&mut self, set: &ActionSet)
        requires
            old(self).wf(),
            set.wf(),
            entries_in(old(self)@, set@),
        ensures
            final(self).wf(),
            final(self)@ == match last_selectable_before(set@, old(self)@, old(self)@.entries.len() as int) {
                Some(i) => MenuView { active: Some(i), ..old(self)@ },
                None => old(self)@,
            },
    {
        let mut k: usize = self.entries.len();
        while k > 0
            invariant
                0 <= k <= self@.entries.len(),
                self.wf(),
                set.wf(),
                entries_in(self@, set@),
                self@ == old(self)@,
                last_selectable_before(set@, self@, k as int) == last_selectable_before(
                    set@,
                    self@,
                    self@.entries.len() as int,
                ),
            decreases k,
        {
            if self.is_selectable(set, k - 1) {
                self.active = Some(k - 1);
                return;
            }
            k = k - 1;
        }
    }

    /// Chooses entry `idx` ([`spec_activate`]).
    pub fn activate_index(&mut self, set: &ActionSet, idx: usize) -> (r: MenuOutcome)
        requires
            old(self).wf(),
            set.wf(),
            entries_in(old(self)@, set@),
        ensures
            final(self).wf(),
            (final(self)@, r) == spec_activate(set@, old(self)@, idx as int),
    {
        if idx >= self.entries.len() {
            return MenuOutcome::Handled;
        }
        let e = self.entries[idx];
        if !set.is_enabled(e.action) || set.action(e.action).is_separator() {
            return MenuOutcome::Handled;
        }
        if e.submenu.is_some() {
            self.active = Some(idx);
            return MenuOutcome::OpenSubmenu(idx, true);
        }
        self.hide_menu();
        self.last_triggered = Some(e.action);
        MenuOutcome::Activate(e.action)
    }

    /// The entries from `k` on that answer to `c`, computed.
    fn mnemonic_matches_exec(&self, set: &ActionSet, c: char) -> (r: Vec<usize>)
        requires
            self.wf(),
            set.wf(),
            entries_in(self@, set@),
        ensures
            r@.map_values(|i: usize| i as nat) == mnemonic_matches(set@, self@, c, 0),
    {
        let n = self.entries.len();
        let mut out: Vec<usize> = Vec::new();
        let mut k: usize = n;
        while k > 0
            invariant
                0 <= k <= n == self@.entries.len(),
                self.wf(),
                set.wf(),
                entries_in(self@, set@),
                out@.map_values(|i: usize| i as nat) == mnemonic_matches(set@, self@, c, k as int),
            decreases k,
        {
            let i = k - 1;
            let a = self.entries[i].action;
            let m = set.is_visible(a) && !set.action(a).is_separator() && set.action(a).mnemonic() == Some(c);
            if m {
                let mut next: Vec<usize> = Vec::new();
                next.push(i);
                let mut j: usize = 0;
                while j < out.len()
                    invariant
                        0 <= j <= out@.len(),
                        next@ == seq![i].add(out@.subrange(0, j as int)),
                    decreases out@.len() - j,
                {
                    next.push(out[j]);
                    j = j + 1;
                    assert(next@ =~= seq![i].add(out@.subrange(0, j as int)));
                }
                assert(out@.subrange(0, j as int) =~= out@);
                assert(next@.map_values(|x: usize| x as nat) =~= seq![i as nat] + out@.map_values(|x: usize| x as nat));
                out = next;
            }
            k = i;
        }
        out
    }

    /// A mnemonic key ([`spec_mnemonic`]).
    fn handle_mnemonic(&mut self, set: &ActionSet, key: u32, modifiers: u32) -> (r: MenuOutcome)
        requires
            old(self).wf(),
            set.wf(),
            entries_in(old(self)@, set@),
        ensures
            final(self).wf(),
            (final(self)@, r) == spec_mnemonic(set@, old(self)@, key, modifiers),
    {
        let allowed = modifiers & !(MOD_ALT | MOD_SHIFT) == 0;
        let c = match key_char(key) {
            Some(c) => c,
            None => {
                return MenuOutcome::Ignored;
            },
        };
        if !allowed {
            return MenuOutcome::Ignored;
        }
        let ms = self.mnemonic_matches_exec(set, c);
        let ghost msv = ms@.map_values(|i: usize| i as nat);
        proof {
            lemma_mnemonic_matches(set@, self@, c, 0);
            assert(msv.subrange(0, msv.len() as int) =~= msv);
        }
        if ms.len() == 0 {
            return MenuOutcome::Ignored;
        }
        let first = ms[0];
        let next = match self.active {
            Some(cur) => if ms.len() > 1 {
                let mut found: Option<usize> = None;
                let mut j: usize = 0;
                while j < ms.len()
                    invariant
                        0 <= j <= ms@.len(),
                        msv == ms@.map_values(|i: usize| i as nat),
                        found is None ==> first_after(msv.subrange(j as int, msv.len() as int), cur as nat)
                            == first_after(msv, cur as nat),
                        found matches Some(f) ==> first_after(msv, cur as nat) == Some(f as nat),
                    decreases ms@.len() - j,
                {
                    if found.is_none() {
                        proof {
                            let rest = msv.subrange(j as int, msv.len() as int);
                            assert(rest[0] == msv[j as int]);
                            assert(rest.drop_first() =~= msv.subrange(j + 1, msv.len() as int));
                        }
                        if ms[j] > cur {
                            found = Some(ms[j]);
                        }
                    }
                    j = j + 1;
                }
                proof {
                    if found is None {
                        assert(msv.subrange(j as int, msv.len() as int).len() == 0);
                    }
                    assert(msv.subrange(0, msv.len() as int) =~= msv);
                }
                proof {
                    lemma_first_after_in(msv, cur as nat);
                }
                match found {
                    Some(f) => f,
                    None => first,
                }
            } else {
                first
            },
            None => first,
        };
        proof {
            assert(msv.subrange(0, msv.len() as int) =~= msv);
        }
        if ms.len() == 1 {
            return self.activate_index(set, next);
        }
        assert(msv.contains(next as nat));
        assert(next < self@.entries.len()) by {
            let j = choose|j: int| 0 <= j < msv.len() && msv[j] == next as nat;
            assert(mnemonic_matches(set@, self@, c, 0)[j] == next as nat);
        }
        self.active = Some(next);
        MenuOutcome::Handled
    }

    /// A key for this level ([`spec_key`]).
    pub fn handle_key(&mut self, set: &ActionSet, key: u32, modifiers: u32) -> (r: MenuOutcome)
        requires
            old(self).wf(),
            set.wf(),
            entries_in(old(self)@, set@),
        ensures
            final(self).wf(),
            (final(self)@, r) == spec_key(set@, old(self)@, key, modifiers),
    {
        let k = normalize_key(key);
        let m = normalize_modifiers(modifiers);
        if k == UP {
            self.step_active(set, false);
            MenuOutcome::Handled
        } else if k == DOWN {
            self.step_active(set, true);
            MenuOutcome::Handled
        } else if k == HOME || k == PAGE_UP {
            self.select_first(set);
            MenuOutcome::Handled
        } else if k == END || k == PAGE_DOWN {
            self.select_last(set);
            MenuOutcome::Handled
        } else if k == LEFT {
            MenuOutcome::NavigateLeft
        } else if k == RIGHT {
            match self.active {
                Some(i) => if self.entries[i].submenu.is_some() && self.is_selectable(set, i) {
                    MenuOutcome::OpenSubmenu(i, true)
                } else {
                    MenuOutcome::NavigateRight
                },
                None => MenuOutcome::NavigateRight,
            }
        } else if k == RETURN || k == ENTER || k == SPACE {
            match self.active {
                Some(i) => self.activate_index(set, i),
                None => MenuOutcome::Handled,
            }
        } else if k == ESCAPE {
            self.hide_menu();
            MenuOutcome::Closed
        } else {
            self.handle_mnemonic(set, k, m)
        }
    }

    /// Turns the open sub-menu's outcome into this menu's ([`spec_from_child`]).
    pub fn outcome_from_child(&mut self, outcome: MenuOutcome) -> (r: MenuOutcome)
        requires
            old(self).wf(),
        ensures
            final(self).wf(),
            (final(self)@, r) == spec_from_child(old(self)@, outcome),
    {
        match outcome {
            MenuOutcome::Ignored => MenuOutcome::Ignored,
            MenuOutcome::Closed | MenuOutcome::NavigateLeft => {
                self.open_submenu = None;
                MenuOutcome::Handled
            },
            MenuOutcome::NavigateRight => MenuOutcome::NavigateRight,
            MenuOutcome::Activate(a) => {
                self.hide_menu();
                self.last_triggered = Some(a);
                MenuOutcome::Activate(a)
            },
            _ => MenuOutcome::Handled,
        }
    }

    /// Whether `pos` lies on this menu's own area while it is shown.
    pub fn covers_own(&self, pos: Point) -> (r: bool)
        ensures
            r == covers_own(self@, pos),
    {
        self.visible && Rect::new(0, 0, self.geometry.width, self.geometry.height).contains(pos)
    }

    /// The mouse moves to `pos` on this level ([`spec_mouse_move`]).
    pub fn handle_mouse_move(&mut self, set: &ActionSet, h: i32, pos: Point) -> (r: MenuOutcome)
        requires
            old(self).wf(),
            set.wf(),
            entries_fit(set@, old(self)@, h as int),
        ensures
            final(self).wf(),
            (final(self)@, r) == spec_mouse_move(set@, old(self)@, h as int, pos),
    {
        match self.index_at(set, h, pos) {
            Some(i) => {
                if self.is_selectable(set, i) && self.active != Some(i) {
                    self.active = Some(i);
                    if self.entries[i].submenu.is_some() {
                        return MenuOutcome::OpenSubmenu(i, false);
                    } else {
                        self.open_submenu = None;
                    }
                }
                MenuOutcome::Handled
            },
            None => if self.covers_own(pos) {
                MenuOutcome::Handled
            } else {
                MenuOutcome::Ignored
            },
        }
    }

    /// A mouse button goes down at `pos` on this level ([`spec_mouse_press`]).
    pub fn handle_mouse_press(&mut self, set: &ActionSet, h: i32, pos: Point) -> (r: MenuOutcome)
        requires
            old(self).wf(),
            set.wf(),
            entries_fit(set@, old(self)@, h as int),
        ensures
            final(self).wf(),
            (final(self)@, r) == spec_mouse_press(set@, old(self)@, h as int, pos),
    {
        if !self.covers_own(pos) {
            self.hide_menu();
            return MenuOutcome::Closed;
        }
        match self.index_at(set, h, pos) {
            Some(i) => {
                if self.is_selectable(set, i) && self.entries[i].submenu.is_some() {
                    if self.open_submenu == Some(i) {
                        self.open_submenu = None;
                        return MenuOutcome::Handled;
                    } else {
                        self.active = Some(i);
                        return MenuOutcome::OpenSubmenu(i, false);
                    }
                }
                MenuOutcome::Handled
            },
            None => MenuOutcome::Handled,
        }
    }

    /// A mouse button goes up at `pos` on this level ([`spec_mouse_release`]).
    pub fn handle_mouse_release(&mut self, set: &ActionSet, h: i32, pos: Point) -> (r: MenuOutcome)
        requires
            old(self).wf(),
            set.wf(),
            entries_fit(set@, old(self)@, h as int),
        ensures
            final(self).wf(),
            (final(self)@, r) == spec_mouse_release(set@, old(self)@, h as int, pos),
    {
        match self.index_at(set, h, pos) {
            Some(i) => {
                if self.is_selectable(set, i) && self.entries[i].submenu.is_none() {
                    return self.activate_index(set, i);
                }
                MenuOutcome::Handled
            },
            None => if self.covers_own(pos) {
                MenuOutcome::Handled
            } else {
                MenuOutcome::Ignored
            },
        }
    }

    /// The pointer leaves: the highlight goes unless a sub-menu is open.
    pub fn handle_leave(&mut self)
        requires
            old(self).wf(),
        ensures
            final(self).wf(),
            final(self)@ == if old(self)@.open_submenu is None {
                MenuView { active: None, ..old(self)@ }
            } else {
                old(self)@
            },
    {
        if self.open_submenu.is_none() {
            self.active = None;
        }
    }

    /// Opens the sub-menu of entry `idx`, of size `size`
    /// ([`submenu_placement`]): returns where it shows and the bounds it
    /// keeps inside, unless it is already open, the entry has no sub-menu
    /// or is disabled (another open sub-menu closes then).
    pub fn open_submenu_at(&mut self, set: &ActionSet, h: i32, idx: usize, size: Size) -> (r: Option<(Rect, Option<Rect>)>)
        requires
            old(self).wf(),
            set.wf(),
            entries_in(old(self)@, set@),
            has_submenu(old(self)@, idx as int) && old(self)@.open_submenu != Some(idx as nat)
                && effectively_enabled(set@, old(self)@.entries[idx as int].action as int)
                ==> entries_fit(set@, old(self)@, h as int) && submenu_fits(
                set@,
                old(self)@,
                h as int,
                idx as int,
                size,
            ),
        ensures
            final(self).wf(),
            !has_submenu(old(self)@, idx as int) || old(self)@.open_submenu == Some(idx as nat)
                ==> final(self)@ == old(self)@ && r is None,
            has_submenu(old(self)@, idx as int) && old(self)@.open_submenu != Some(idx as nat) && !effectively_enabled(
                set@,
                old(self)@.entries[idx as int].action as int,
            ) ==> final(self)@ == (MenuView { open_submenu: None, ..old(self)@ }) && r is None,
            has_submenu(old(self)@, idx as int) && old(self)@.open_submenu != Some(idx as nat) && effectively_enabled(
                set@,
                old(self)@.entries[idx as int].action as int,
            ) ==> final(self)@ == (MenuView { open_submenu: Some(idx as nat), ..old(self)@ }) && r == Some(
                submenu_placement(set@, old(self)@, h as int, idx as int, size),
            ),
    {
        if idx >= self.entries.len() || self.entries[idx].submenu.is_none() {
            return None;
        }
        if self.open_submenu == Some(idx) {
            return None;
        }
        if !set.is_enabled(self.entries[idx].action) {
            self.open_submenu = None;
            return None;
        }
        let rects = self.item_rects(set, h);
        let item = rects[idx];
        assert(item == entry_rect(set@, old(self)@, h as int, idx as int));
        self.open_submenu = None;
        proof {
            lemma_entry_top_rises(set@, old(self)@, h as int, idx as int);
            let t = entry_top(set@, old(self)@, h as int, idx as int);
            assert(item.y == t as i32);
            assert(item.y as int == t);
        }
        let g = self.geometry;
        let local: Option<Rect> = match self.popup_bounds {
            Some(b) => Some(Rect::new(b.x - g.x, b.y - g.y, b.width, b.height)),
            None => None,
        };
        let x0 = g.width - SUBMENU_OVERLAP;
        let y0 = item.y - V_PADDING;
        let placed = match local {
            Some(b) => {
                let x = if x0 + size.width > b.x + b.width {
                    if SUBMENU_OVERLAP - size.width > b.x {
                        SUBMENU_OVERLAP - size.width
                    } else {
                        b.x
                    }
                } else {
                    x0
                };
                let y1 = if y0 + size.height > b.y + b.height {
                    b.y + b.height - size.height
                } else {
                    y0
                };
                let y = if y1 > b.y {
                    y1
                } else {
                    b.y
                };
                Rect::new(x, y, size.width, size.height)
            },
            None => Rect::new(x0, y0, size.width, size.height),
        };
        self.open_submenu = Some(idx);
        Some((placed, local))
    }
}

/// Taking `n` off a value from `n` to `2n` keeps its remainder by `n`.
proof fn lemma_mod_sub_n(x: int, n: int)
    requires
        n > 0,
        n <= x < 2 * n,
    ensures
        x % n == x - n,
{
    vstd::arithmetic::div_mod::lemma_fundamental_div_mod_converse_mod(x, n, 1, x - n);
}

/// Entry tops never fall: the top of entry `k` lies between the padding and
/// the bottom of the last entry.
pub proof fn lemma_entry_top_rises(set: ActionSetView, v: MenuView, h: int, k: int)
    requires
        entries_fit(set, v, h),
        0 <= k <= v.entries.len(),
    ensures
        V_PADDING <= entry_top(set, v, h, k) <= entry_top(set, v, h, v.entries.len() as int),
    decreases v.entries.len() - k,
{
    lemma_entry_top_bound(set, v, h, k);
    if k < v.entries.len() {
        lemma_entry_top_rises(set, v, h, k + 1);
    }
}

/// The top of entry `k` lies at most `k` entry heights below the padding.
pub proof fn lemma_entry_top_bound(set: ActionSetView, v: MenuView, h: int, k: int)
    requires
        entries_fit(set, v, h),
        0 <= k <= v.entries.len(),
    ensures
        V_PADDING <= entry_top(set, v, h, k) <= V_PADDING + k * h,
    decreases k,
{
    if k > 0 {
        lemma_entry_top_bound(set, v, h, k - 1);
        assert((k - 1) * h + h == k * h) by (nonlinear_arith);
    }
}

} // verus!
