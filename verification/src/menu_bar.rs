//! Menu bars (`QMenuBar`): the menus by title, which one is open, and how
//! clicks, Alt+mnemonic and the arrow keys move between them.

use vstd::prelude::*;

use crate::action::text_mnemonic;
use crate::action_keys::{
    key_char, mnemonic, normalize_key, normalize_modifiers, spec_normalize_key,
    spec_normalize_modifiers, ESCAPE, LEFT, MOD_ALT, RIGHT,
};
use crate::geometry::{Point, Rect};
use crate::text::str_to_string;

verus! {

/// What the caller does to the menus after a menu bar event: hide one menu,
/// and show one at a place.
#[derive(Debug, Clone, Copy, PartialEq, Eq)]
pub struct MenuBarChange {
    pub hide: Option<u64>,
    pub show: Option<(u64, Rect)>,
}

/// A menu bar as plain values: the menus by identifier and title.
pub struct MenuBarView {
    pub menus: Seq<(u64, Seq<char>)>,
    pub active: Option<nat>,
    pub geometry: Rect,
}

/// The open menu is one of the menus; the bar's place fits `i32` sums.
pub open spec fn menu_bar_wf(v: MenuBarView) -> bool {
    &&& (v.active matches Some(i) ==> i < v.menus.len())
    &&& v.menus.len() <= i32::MAX
    &&& v.geometry.width >= 0
    &&& v.geometry.height >= 0
    &&& v.geometry.x + v.geometry.width + v.menus.len() <= i32::MAX
    &&& v.geometry.y + v.geometry.height <= i32::MAX
}

/// Width of each menu's slot on the bar, at least one.
pub open spec fn slot_width(v: MenuBarView) -> int {
    let n = if v.menus.len() > 1 {
        v.menus.len() as int
    } else {
        1
    };
    if v.geometry.width as int / n > 1 {
        v.geometry.width as int / n
    } else {
        1
    }
}

/// Whether menu `id` is on the bar.
pub open spec fn has_menu(ms: Seq<(u64, Seq<char>)>, id: u64) -> bool {
    exists|i: int| 0 <= i < ms.len() && ms[i].0 == id
}

/// `activateMenu`: an index beyond the menus does nothing; the open menu
/// closes; another menu opens below its slot, the open one closing.
pub open spec fn spec_activate(v: MenuBarView, index: int) -> (MenuBarView, MenuBarChange) {
    if index < 0 || index >= v.menus.len() {
        (v, MenuBarChange { hide: None, show: None })
    } else if v.active == Some(index as nat) {
        (MenuBarView { active: None, ..v }, MenuBarChange { hide: Some(v.menus[index].0), show: None })
    } else {
        let w = slot_width(v);
        (
            MenuBarView { active: Some(index as nat), ..v },
            MenuBarChange {
                hide: match v.active {
                    Some(a) => Some(v.menus[a as int].0),
                    None => None,
                },
                show: Some(
                    (
                        v.menus[index].0,
                        Rect {
                            x: (v.geometry.x + index * w) as i32,
                            y: (v.geometry.y + v.geometry.height) as i32,
                            width: w as i32,
                            height: 0,
                        },
                    ),
                ),
            },
        )
    }
}

/// The menu slot at horizontal position `x`, if any (positions just left
/// of the bar count as the first slot, as integer division rounds toward zero).
pub open spec fn hit_of(v: MenuBarView, x: int) -> Option<nat> {
    if v.menus.len() == 0 {
        None
    } else {
        let w = slot_width(v);
        let q = if x >= 0 {
            x / w
        } else {
            -((-x) / w)
        };
        if 0 <= q < v.menus.len() {
            Some(q as nat)
        } else {
            None
        }
    }
}

/// The first menu from `k` on whose title has mnemonic `c`.
pub open spec fn mnemonic_from(ms: Seq<(u64, Seq<char>)>, c: char, k: int) -> Option<nat>
    decreases ms.len() - k,
{
    if k < 0 || k >= ms.len() {
        None
    } else if text_mnemonic(ms[k].1) == Some(c) {
        Some(k as nat)
    } else {
        mnemonic_from(ms, c, k + 1)
    }
}

/// A menu found by mnemonic is one of the menus.
pub proof fn lemma_mnemonic_from(ms: Seq<(u64, Seq<char>)>, c: char, k: int)
    ensures
        mnemonic_from(ms, c, k) matches Some(i) ==> k <= i < ms.len(),
    decreases ms.len() - k,
{
    if 0 <= k < ms.len() && text_mnemonic(ms[k].1) != Some(c) {
        lemma_mnemonic_from(ms, c, k + 1);
    }
}

/// The menu Alt+`key` opens, if any.
pub open spec fn alt_target(v: MenuBarView, key: u32, modifiers: u32) -> Option<nat> {
    let n = spec_normalize_key(key);
    if spec_normalize_modifiers(modifiers) & MOD_ALT != 0 && ((0x30 <= n <= 0x39) || (0x41 <= n <= 0x5A)) {
        mnemonic_from(v.menus, n as char, 0)
    } else {
        None
    }
}

/// A key for the bar: Alt with a mnemonic opens that menu; with a menu
/// open, Left and Right open the neighbour (wrapping) and Escape closes it.
/// Returns whether the key was used.
pub open spec fn spec_key(v: MenuBarView, key: u32, modifiers: u32) -> (MenuBarView, MenuBarChange, bool) {
    let n = spec_normalize_key(key);
    let none = MenuBarChange { hide: None, show: None };
    match alt_target(v, key, modifiers) {
        Some(i) => {
            let (w, c) = spec_activate(v, i as int);
            (w, c, true)
        },
        None => match v.active {
            Some(i) => {
                let len = v.menus.len() as int;
                if n == LEFT {
                    let (w, c) = spec_activate(v, (i as int + len - 1) % len);
                    (w, c, true)
                } else if n == RIGHT {
                    let (w, c) = spec_activate(v, (i as int + 1) % len);
                    (w, c, true)
                } else if n == ESCAPE {
                    (
                        MenuBarView { active: None, ..v },
                        MenuBarChange { hide: Some(v.menus[i as int].0), show: None },
                        true,
                    )
                } else {
                    (v, none, false)
                }
            },
            None => (v, none, false),
        },
    }
}

/// A menu bar.
pub struct MenuBar {
    menus: Vec<(u64, String)>,
    active: Option<usize>,
    geometry: Rect,
}

impl View for MenuBar {
    type V = MenuBarView;

    closed spec fn view(&self) -> MenuBarView {
        MenuBarView {
            menus: self.menus@.map_values(|m: (u64, String)| (m.0, m.1@)),
            active: match self.active {
                Some(i) => Some(i as nat),
                None => None,
            },
            geometry: self.geometry,
        }
    }
}

impl MenuBar {
    /// The invariant of the menu bar.
    pub open spec fn wf(&self) -> bool {
        menu_bar_wf(self@)
    }

    /// An empty bar without extent.
    pub fn new() -> (r: MenuBar)
        ensures
            r.wf(),
            r@ == (MenuBarView { menus: Seq::empty(), active: None, geometry: Rect { x: 0, y: 0, width: 0, height: 0 } }),
    {
        let r = MenuBar { menus: Vec::new(), active: None, geometry: Rect::new(0, 0, 0, 0) };
        assert(r@.menus =~= Seq::<(u64, Seq<char>)>::empty());
        r
    }

    pub fn geometry(&self) -> (r: Rect)
        ensures
            r == self@.geometry,
    {
        self.geometry
    }

    /// Places the bar; its extent is not negative and its far edges fit `i32`.
    pub fn set_geometry(&mut self, rect: Rect)
        requires
            old(self).wf(),
            rect.width >= 0,
            rect.height >= 0,
            rect.x + rect.width + old(self)@.menus.len() <= i32::MAX,
            rect.y + rect.height <= i32::MAX,
        ensures
            final(self).wf(),
            final(self)@ == (MenuBarView { geometry: rect, ..old(self)@ }),
    {
        self.geometry = rect;
    }

    /// Adds menu `id` titled `title`, unless it is on the bar already.
    pub fn add_menu(&mut self, id: u64, title: &str)
        requires
            old(self).wf(),
            old(self)@.geometry.x + old(self)@.geometry.width + old(self)@.menus.len() < i32::MAX,
            old(self)@.menus.len() < i32::MAX,
        ensures
            final(self).wf(),
            has_menu(old(self)@.menus, id) ==> final(self)@ == old(self)@,
            !has_menu(old(self)@.menus, id) ==> final(self)@ == (MenuBarView {
                menus: old(self)@.menus.push((id, title@)),
                ..old(self)@
            }),
    {
        let mut k: usize = 0;
        while k < self.menus.len()
            invariant
                0 <= k <= self@.menus.len(),
                self@ == old(self)@,
                menu_bar_wf(self@),
                forall|i: int| 0 <= i < k ==> self@.menus[i].0 != id,
            decreases self@.menus.len() - k,
        {
            if self.menus[k].0 == id {
                assert(self@.menus[k as int].0 == id);
                return;
            }
            k = k + 1;
        }
        let t = str_to_string(title);
        self.menus.push((id, t));
        assert(self@.menus =~= old(self)@.menus.push((id, title@)));
        assert(self@.menus.len() == old(self)@.menus.len() + 1);
    }

    /// The menus by identifier, in order.
    pub fn menus(&self) -> (r: Vec<u64>)
        ensures
            r@ == self@.menus.map_values(|m: (u64, Seq<char>)| m.0),
    {
        let mut out: Vec<u64> = Vec::new();
        let mut i: usize = 0;
        while i < self.menus.len()
            invariant
                0 <= i <= self@.menus.len(),
                out@ == self@.menus.subrange(0, i as int).map_values(|m: (u64, Seq<char>)| m.0),
            decreases self@.menus.len() - i,
        {
            out.push(self.menus[i].0);
            i = i + 1;
            assert(out@ =~= self@.menus.subrange(0, i as int).map_values(|m: (u64, Seq<char>)| m.0));
        }
        assert(self@.menus.subrange(0, i as int) =~= self@.menus);
        out
    }

    /// The open menu, if any.
    pub fn active_menu(&self) -> (r: Option<u64>)
        requires
            self.wf(),
        ensures
            r == match self@.active {
                Some(i) => Some(self@.menus[i as int].0),
                None => None,
            },
    {
        match self.active {
            Some(i) => Some(self.menus[i].0),
            None => None,
        }
    }

    /// Closes the open menu; returns it for the caller to hide.
    pub fn close_active(&mut self) -> (r: Option<u64>)
        requires
            old(self).wf(),
        ensures
            final(self).wf(),
            final(self)@ == (MenuBarView { active: None, ..old(self)@ }),
            r == match old(self)@.active {
                Some(i) => Some(old(self)@.menus[i as int].0),
                None => None,
            },
    {
        let r = self.active_menu();
        self.active = None;
        r
    }

    fn slot_w(&self) -> (r: i32)
        requires
            self.wf(),
        ensures
            r == slot_width(self@),
            1 <= r,
            r <= self@.geometry.width || r == 1,
    {
        let n: i32 = if self.menus.len() > 1 {
            self.menus.len() as i32
        } else {
            1
        };
        let q = self.geometry.width / n;
        if q > 1 {
            q
        } else {
            1
        }
    }

    /// Opens (or closes) menu `index` ([`spec_activate`]).
    pub fn activate_menu(&mut self, index: usize) -> (r: MenuBarChange)
        requires
            old(self).wf(),
        ensures
            final(self).wf(),
            (final(self)@, r) == spec_activate(old(self)@, index as int),
    {
        if index >= self.menus.len() {
            return MenuBarChange { hide: None, show: None };
        }
        if self.active == Some(index) {
            let h = self.close_active();
            return MenuBarChange { hide: h, show: None };
        }
        let hide = self.active_menu();
        let w = self.slot_w();
        proof {
            let n: int = if self@.menus.len() > 1 {
                self@.menus.len() as int
            } else {
                1
            };
            let gw = self@.geometry.width as int;
            vstd::arithmetic::div_mod::lemma_fundamental_div_mod(gw, n);
            vstd::arithmetic::div_mod::lemma_mod_bound(gw, n);
            assert(index * w <= gw || w == 1) by (nonlinear_arith)
                requires
                    index < n,
                    w == 1 || w == gw / n,
                    gw == n * (gw / n) + gw % n,
                    0 <= gw % n,
                    n >= 1,
                    w >= 1,
            ;
            assert(index * w <= gw + index) by (nonlinear_arith)
                requires
                    index * w <= gw || w == 1,
                    index >= 0,
                    gw >= 0,
            ;
        }
        let x = self.geometry.x as i64 + (index as i64) * (w as i64);
        assert(x <= i32::MAX) by {
            assert(index < self@.menus.len() <= i32::MAX);
        }
        let r = Rect::new(x as i32, self.geometry.y + self.geometry.height, w, 0);
        self.active = Some(index);
        MenuBarChange { hide, show: Some((self.menus[index].0, r)) }
    }

    /// The menu slot at horizontal position `x` ([`hit_of`]).
    pub fn hit(&self, x: i32) -> (r: Option<usize>)
        requires
            self.wf(),
        ensures
            r == match hit_of(self@, x as int) {
                Some(i) => Some(i as usize),
                None => None,
            },
    {
        if self.menus.len() == 0 {
            return None;
        }
        let w = self.slot_w();
        let q: i64 = if x >= 0 {
            (x / w) as i64
        } else {
            -(((-(x as i64)) / (w as i64)))
        };
        if 0 <= q && q < self.menus.len() as i64 {
            Some(q as usize)
        } else {
            None
        }
    }

    /// The first menu whose title has mnemonic `c`.
    pub fn mnemonic(&self, c: char) -> (r: Option<usize>)
        ensures
            r == match mnemonic_from(self@.menus, c, 0) {
                Some(i) => Some(i as usize),
                None => None,
            },
            mnemonic_from(self@.menus, c, 0) matches Some(i) ==> i < self@.menus.len(),
    {
        proof {
            lemma_mnemonic_from(self@.menus, c, 0);
        }
        let mut k: usize = 0;
        while k < self.menus.len()
            invariant
                0 <= k <= self@.menus.len(),
                mnemonic_from(self@.menus, c, k as int) == mnemonic_from(self@.menus, c, 0),
            decreases self@.menus.len() - k,
        {
            if mnemonic(self.menus[k].1.as_str()) == Some(c) {
                return Some(k);
            }
            k = k + 1;
        }
        None
    }

    /// A left click at `pos` opens (or closes) the menu of its slot.
    pub fn mouse_press_event(&mut self, pos: Point, button: u32) -> (r: MenuBarChange)
        requires
            old(self).wf(),
        ensures
            final(self).wf(),
            button == 1 && hit_of(old(self)@, pos.x as int) is Some ==> (final(self)@, r) == spec_activate(
                old(self)@,
                hit_of(old(self)@, pos.x as int)->0 as int,
            ),
            !(button == 1 && hit_of(old(self)@, pos.x as int) is Some) ==> final(self)@ == old(self)@ && r
                == (MenuBarChange { hide: None, show: None }),
    {
        if button == 1 {
            match self.hit(pos.x) {
                Some(i) => {
                    return self.activate_menu(i);
                },
                None => {},
            }
        }
        MenuBarChange { hide: None, show: None }
    }

    /// A key for the bar ([`spec_key`]); returns the change and whether the
    /// key was used.
    pub fn handle_key(&mut self, key: u32, modifiers: u32) -> (r: (MenuBarChange, bool))
        requires
            old(self).wf(),
        ensures
            final(self).wf(),
            (final(self)@, r.0, r.1) == spec_key(old(self)@, key, modifiers),
    {
        let n = normalize_key(key);
        if normalize_modifiers(modifiers) & MOD_ALT != 0 {
            match key_char(n) {
                Some(c) => {
                    match self.mnemonic(c) {
                        Some(i) => {
                            let ch = self.activate_menu(i);
                            return (ch, true);
                        },
                        None => {},
                    }
                },
                None => {},
            }
        }
        match self.active {
            Some(i) => {
                let len = self.menus.len();
                if n == LEFT {
                    let t = if i == 0 {
                        len - 1
                    } else {
                        i - 1
                    };
                    proof {
                        if i == 0 {
                            vstd::arithmetic::div_mod::lemma_small_mod((len - 1) as nat, len as nat);
                        } else {
                            vstd::arithmetic::div_mod::lemma_fundamental_div_mod_converse_mod(
                                i + len - 1,
                                len as int,
                                1,
                                i - 1,
                            );
                        }
                    }
                    let ch = self.activate_menu(t);
                    (ch, true)
                } else if n == RIGHT {
                    let t = if i + 1 == len {
                        0
                    } else {
                        i + 1
                    };
                    proof {
                        if i + 1 == len {
                            vstd::arithmetic::div_mod::lemma_fundamental_div_mod_converse_mod(
                                i + 1,
                                len as int,
                                1,
                                0,
                            );
                        } else {
                            vstd::arithmetic::div_mod::lemma_small_mod((i + 1) as nat, len as nat);
                        }
                    }
                    let ch = self.activate_menu(t);
                    (ch, true)
                } else if n == ESCAPE {
                    let h = self.close_active();
                    (MenuBarChange { hide: h, show: None }, true)
                } else {
                    (MenuBarChange { hide: None, show: None }, false)
                }
            },
            None => (MenuBarChange { hide: None, show: None }, false),
        }
    }

    /// A key press delivered to the bar as a widget: only Alt with a mnemonic
    /// opens a menu.
    pub fn key_press_event(&mut self, key: u32, modifiers: u32) -> (r: MenuBarChange)
        requires
            old(self).wf(),
        ensures
            final(self).wf(),
            alt_target(old(self)@, key, modifiers) matches Some(i) ==> (final(self)@, r) == spec_activate(
                old(self)@,
                i as int,
            ),
            alt_target(old(self)@, key, modifiers) is None ==> final(self)@ == old(self)@ && r == (MenuBarChange {
                hide: None,
                show: None,
            }),
    {
        let n = normalize_key(key);
        if normalize_modifiers(modifiers) & MOD_ALT != 0 {
            match key_char(n) {
                Some(c) => {
                    match self.mnemonic(c) {
                        Some(i) => {
                            return self.activate_menu(i);
                        },
                        None => {},
                    }
                },
                None => {},
            }
        }
        MenuBarChange { hide: None, show: None }
    }
}

} // verus!
