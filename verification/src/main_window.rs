//! Main windows (`QMainWindow`): the menu bar, tool bars, dock widgets,
//! status bar and central widget, and how the window's area is shared out
//! among them.

use vstd::prelude::*;

use crate::geometry::Rect;
use crate::menu_bar::{MenuBar, MenuBarView, menu_bar_wf};

verus! {

/// Side of a main window a dock widget is attached to (`Qt::DockWidgetArea`).
#[derive(Debug, Clone, Copy, PartialEq, Eq, Structural, Hash)]
pub enum DockArea {
    Left,
    Right,
    Top,
    Bottom,
}

/// Height of the menu bar.
pub const MENU_BAR_HEIGHT: i32 = 26;

/// Height of a shown status bar.
pub const STATUS_BAR_HEIGHT: i32 = 24;

/// Lowest tool bar.
pub const MIN_TOOL_BAR_HEIGHT: i32 = 24;

/// Widest side dock.
pub const MAX_SIDE_DOCK_WIDTH: i32 = 200;

/// Tallest top or bottom dock.
pub const MAX_EDGE_DOCK_HEIGHT: i32 = 140;

/// A main window as plain values: tool bars by identifier with the height
/// they ask for, docks by area and identifier.
pub struct MainWindowView {
    pub geometry: Rect,
    pub menu_bar_visible: bool,
    pub status_bar_visible: bool,
    pub central: Option<u64>,
    pub tool_bars: Seq<(u64, i32)>,
    pub docks: Seq<(DockArea, u64)>,
    /// The window's menu bar: its menus and what is open.
    pub menu_bar: MenuBarView,
}

/// Where every part of the window goes.
pub struct RegionLayout {
    pub menu_bar: Option<Rect>,
    pub tool_bars: Vec<Rect>,
    pub status_bar: Rect,
    pub docks: Vec<Rect>,
    pub central: Option<Rect>,
}

/// The larger of `a` and `b`.
pub open spec fn max_int(a: int, b: int) -> int {
    if a > b {
        a
    } else {
        b
    }
}

/// The smaller of `a` and `b`.
pub open spec fn min_int(a: int, b: int) -> int {
    if a < b {
        a
    } else {
        b
    }
}

/// Height a tool bar gets: what it asks for, at least the minimum.
pub open spec fn tool_bar_height(h: i32) -> int {
    max_int(h as int, MIN_TOOL_BAR_HEIGHT as int)
}

/// Top of tool bar `k`: below the menu bar (when shown) and the tool bars before.
pub open spec fn tool_bar_top(v: MainWindowView, k: int) -> int
    decreases k,
{
    if k <= 0 {
        v.geometry.y + if v.menu_bar_visible {
            MENU_BAR_HEIGHT as int
        } else {
            0
        }
    } else {
        tool_bar_top(v, k - 1) + tool_bar_height(v.tool_bars[k - 1].1)
    }
}

/// Top of the area below the tool bars.
pub open spec fn chrome_top(v: MainWindowView) -> int {
    tool_bar_top(v, v.tool_bars.len() as int)
}

/// Height of the status bar: its height when shown, nothing otherwise.
pub open spec fn status_height(v: MainWindowView) -> int {
    if v.status_bar_visible {
        STATUS_BAR_HEIGHT as int
    } else {
        0
    }
}

/// Bottom of the area above the status bar.
pub open spec fn chrome_bottom(v: MainWindowView) -> int {
    v.geometry.y + v.geometry.height - status_height(v)
}

/// How many docks before `i` are in `area`.
pub open spec fn rank_in(docks: Seq<(DockArea, u64)>, area: DockArea, i: int) -> int
    decreases i,
{
    if i <= 0 {
        0
    } else {
        rank_in(docks, area, i - 1) + if docks[i - 1].0 == area {
            1int
        } else {
            0
        }
    }
}

/// How many docks are in `area`.
pub open spec fn count_in(docks: Seq<(DockArea, u64)>, area: DockArea) -> int {
    rank_in(docks, area, docks.len() as int)
}

/// Width each left dock gets: the room shared among them, at most 200.
pub open spec fn left_width(v: MainWindowView) -> int {
    min_int(
        MAX_SIDE_DOCK_WIDTH as int,
        max_int(v.geometry.width as int, 0) / max_int(count_in(v.docks, DockArea::Left), 1),
    )
}

/// Left edge of the room after the left docks.
pub open spec fn inner_left(v: MainWindowView) -> int {
    v.geometry.x + count_in(v.docks, DockArea::Left) * left_width(v)
}

/// Width each right dock gets: the room left of it shared among them, at most 200.
pub open spec fn right_width(v: MainWindowView) -> int {
    min_int(
        MAX_SIDE_DOCK_WIDTH as int,
        max_int(v.geometry.x + v.geometry.width - inner_left(v), 0) / max_int(
            count_in(v.docks, DockArea::Right),
            1,
        ),
    )
}

/// Right edge of the room after the right docks.
pub open spec fn inner_right(v: MainWindowView) -> int {
    v.geometry.x + v.geometry.width - count_in(v.docks, DockArea::Right) * right_width(v)
}

/// Top of the `k`-th top dock: each takes what room is left, at most 140.
pub open spec fn top_dock_top(v: MainWindowView, k: int) -> int
    decreases k,
{
    if k <= 0 {
        chrome_top(v)
    } else {
        let t = top_dock_top(v, k - 1);
        t + min_int(MAX_EDGE_DOCK_HEIGHT as int, max_int(chrome_bottom(v) - t, 0))
    }
}

/// Top of the central area, below the top docks.
pub open spec fn inner_top(v: MainWindowView) -> int {
    top_dock_top(v, count_in(v.docks, DockArea::Top))
}

/// Bottom above the `k`-th bottom dock: each takes what room is left, at most 140.
pub open spec fn bottom_dock_bottom(v: MainWindowView, k: int) -> int
    decreases k,
{
    if k <= 0 {
        chrome_bottom(v)
    } else {
        let b = bottom_dock_bottom(v, k - 1);
        b - min_int(MAX_EDGE_DOCK_HEIGHT as int, max_int(b - inner_top(v), 0))
    }
}

/// Bottom of the central area, above the bottom docks.
pub open spec fn inner_bottom(v: MainWindowView) -> int {
    bottom_dock_bottom(v, count_in(v.docks, DockArea::Bottom))
}

/// The rectangle from `x`, `y` of extent `w`, `h`.
pub open spec fn rect_of(x: int, y: int, w: int, h: int) -> Rect {
    Rect { x: x as i32, y: y as i32, width: w as i32, height: h as i32 }
}

/// Where dock `i` goes: side docks side by side from the edges, full height
/// between the tool bars and the status bar; top and bottom docks stacked
/// from the edges across the room between the side docks.
pub open spec fn dock_rect(v: MainWindowView, i: int) -> Rect {
    let area = v.docks[i].0;
    let k = rank_in(v.docks, area, i);
    let side_h = max_int(chrome_bottom(v) - chrome_top(v), 0);
    let cw = max_int(inner_right(v) - inner_left(v), 0);
    match area {
        DockArea::Left => rect_of(v.geometry.x + k * left_width(v), chrome_top(v), left_width(v), side_h),
        DockArea::Right => rect_of(
            v.geometry.x + v.geometry.width - (k + 1) * right_width(v),
            chrome_top(v),
            right_width(v),
            side_h,
        ),
        DockArea::Top => {
            let t = top_dock_top(v, k);
            rect_of(inner_left(v), t, cw, top_dock_top(v, k + 1) - t)
        },
        DockArea::Bottom => {
            let b = bottom_dock_bottom(v, k + 1);
            rect_of(inner_left(v), b, cw, bottom_dock_bottom(v, k) - b)
        },
    }
}

/// The central widget's rectangle: the room the other parts leave.
pub open spec fn central_rect(v: MainWindowView) -> Rect {
    rect_of(
        inner_left(v),
        inner_top(v),
        max_int(inner_right(v) - inner_left(v), 0),
        max_int(inner_bottom(v) - inner_top(v), 0),
    )
}

/// The layout can be computed in `i32`: the bottom of the tool bars, the
/// window's right and bottom edges, the top of the status bar and the height
/// between them are `i32`s, and the docks are counted exactly by an `i32`.
pub open spec fn layout_fits(v: MainWindowView) -> bool {
    &&& chrome_top(v) <= i32::MAX
    &&& i32::MIN <= v.geometry.x + v.geometry.width <= i32::MAX
    &&& i32::MIN <= v.geometry.y + v.geometry.height <= i32::MAX
    &&& i32::MIN <= chrome_bottom(v) <= i32::MAX
    &&& i32::MIN <= chrome_bottom(v) - chrome_top(v) <= i32::MAX
    &&& v.docks.len() <= i32::MAX
}

/// A main window's parts.
pub struct MainWindow {
    geometry: Rect,
    menu_bar_visible: bool,
    status_bar_visible: bool,
    central: Option<u64>,
    tool_bars: Vec<(u64, i32)>,
    docks: Vec<(DockArea, u64)>,
    menu_bar: MenuBar,
}

impl View for MainWindow {
    type V = MainWindowView;

    closed spec fn view(&self) -> MainWindowView {
        MainWindowView {
            geometry: self.geometry,
            menu_bar_visible: self.menu_bar_visible,
            status_bar_visible: self.status_bar_visible,
            central: self.central,
            tool_bars: self.tool_bars@,
            docks: self.docks@,
            menu_bar: self.menu_bar@,
        }
    }
}

/// Ranks grow by at most one per dock.
proof fn lemma_rank_bound(docks: Seq<(DockArea, u64)>, area: DockArea, i: int)
    requires
        0 <= i <= docks.len(),
    ensures
        0 <= rank_in(docks, area, i) <= i,
    decreases i,
{
    if i > 0 {
        lemma_rank_bound(docks, area, i - 1);
    }
}

/// Tool bar tops never fall below the window's top.
proof fn lemma_tool_bar_top_low(v: MainWindowView, k: int)
    requires
        0 <= k <= v.tool_bars.len(),
    ensures
        v.geometry.y <= tool_bar_top(v, k),
    decreases k,
{
    if k > 0 {
        lemma_tool_bar_top_low(v, k - 1);
    }
}

/// Tool bar tops climb from the window's top to the bottom of the tool bars.
proof fn lemma_tool_bar_top(v: MainWindowView, k: int)
    requires
        0 <= k <= v.tool_bars.len(),
    ensures
        v.geometry.y <= tool_bar_top(v, k) <= chrome_top(v),
    decreases v.tool_bars.len() - k,
{
    lemma_tool_bar_top_low(v, k);
    if k < v.tool_bars.len() {
        lemma_tool_bar_top(v, k + 1);
    }
}

/// The top docks stay between the chrome top and the chrome bottom (or at
/// the chrome top when there is no room).
proof fn lemma_top_docks(v: MainWindowView, k: int)
    requires
        k >= 0,
    ensures
        chrome_top(v) <= top_dock_top(v, k) <= max_int(chrome_top(v), chrome_bottom(v)),
    decreases k,
{
    if k > 0 {
        lemma_top_docks(v, k - 1);
    }
}

/// The bottom docks stay between the central top and the chrome bottom.
proof fn lemma_bottom_docks(v: MainWindowView, k: int)
    requires
        k >= 0,
    ensures
        min_int(inner_top(v), chrome_bottom(v)) <= bottom_dock_bottom(v, k) <= chrome_bottom(v),
    decreases k,
{
    if k > 0 {
        lemma_bottom_docks(v, k - 1);
    }
}

impl MainWindow {
    /// A main window without extent, central widget, tool bars or docks;
    /// menu bar and status bar shown.
    pub fn new() -> (r: MainWindow)
        ensures
            r@ == (MainWindowView {
                geometry: Rect { x: 0, y: 0, width: 0, height: 0 },
                menu_bar_visible: true,
                status_bar_visible: true,
                central: None,
                tool_bars: Seq::empty(),
                docks: Seq::empty(),
                menu_bar: MenuBarView {
                    menus: Seq::empty(),
                    active: None,
                    geometry: Rect { x: 0, y: 0, width: 0, height: 0 },
                },
            }),
            menu_bar_wf(r@.menu_bar),
    {
        let r = MainWindow {
            geometry: Rect::new(0, 0, 0, 0),
            menu_bar_visible: true,
            status_bar_visible: true,
            central: None,
            tool_bars: Vec::new(),
            docks: Vec::new(),
            menu_bar: MenuBar::new(),
        };
        assert(r@.tool_bars =~= Seq::<(u64, i32)>::empty());
        assert(r@.docks =~= Seq::<(DockArea, u64)>::empty());
        r
    }

    pub fn geometry(&self) -> (r: Rect)
        ensures
            r == self@.geometry,
    {
        self.geometry
    }

    /// The menu bar.
    pub fn menu_bar(&self) -> (r: &MenuBar)
        ensures
            r@ == self@.menu_bar,
    {
        &self.menu_bar
    }

    /// The menu bar, to add menus to and open them.
    pub fn menu_bar_mut(&mut self) -> (r: &mut MenuBar)
        ensures
            r@ == old(self)@.menu_bar,
            final(self)@ == (MainWindowView { menu_bar: final(r)@, ..old(self)@ }),
    {
        &mut self.menu_bar
    }

    pub fn set_geometry(&mut self, rect: Rect)
        ensures
            final(self)@ == (MainWindowView { geometry: rect, ..old(self)@ }),
    {
        self.geometry = rect;
    }

    /// Shows or hides the menu bar.
    pub fn set_menu_bar_visible(&mut self, visible: bool)
        ensures
            final(self)@ == (MainWindowView { menu_bar_visible: visible, ..old(self)@ }),
    {
        self.menu_bar_visible = visible;
    }

    /// Shows or hides the status bar.
    pub fn set_status_bar_visible(&mut self, visible: bool)
        ensures
            final(self)@ == (MainWindowView { status_bar_visible: visible, ..old(self)@ }),
    {
        self.status_bar_visible = visible;
    }

    /// Makes widget `id` the central widget; returns the one it replaces.
    pub fn set_central_widget(&mut self, id: u64) -> (r: Option<u64>)
        ensures
            final(self)@ == (MainWindowView { central: Some(id), ..old(self)@ }),
            r == old(self)@.central,
    {
        let old_central = self.central;
        self.central = Some(id);
        old_central
    }

    pub fn central_widget(&self) -> (r: Option<u64>)
        ensures
            r == self@.central,
    {
        self.central
    }

    /// Adds tool bar `id`, which asks for `height`, below the others.
    pub fn add_tool_bar(&mut self, id: u64, height: i32)
        ensures
            final(self)@ == (MainWindowView { tool_bars: old(self)@.tool_bars.push((id, height)), ..old(self)@ }),
    {
        self.tool_bars.push((id, height));
    }

    /// Adds dock widget `id` to `area`, after the docks already there.
    pub fn add_dock_widget(&mut self, area: DockArea, id: u64)
        ensures
            final(self)@ == (MainWindowView { docks: old(self)@.docks.push((area, id)), ..old(self)@ }),
    {
        self.docks.push((area, id));
    }

    /// The docks in `area`, in the order they were added.
    pub fn dock_widgets(&self, area: DockArea) -> (r: Vec<u64>)
        ensures
            r@ == self@.docks.filter(|d: (DockArea, u64)| d.0 == area).map_values(|d: (DockArea, u64)| d.1),
    {
        let mut out: Vec<u64> = Vec::new();
        let mut i: usize = 0;
        let ghost f = |d: (DockArea, u64)| d.0 == area;
        while i < self.docks.len()
            invariant
                0 <= i <= self@.docks.len(),
                f == |d: (DockArea, u64)| d.0 == area,
                out@ == self@.docks.subrange(0, i as int).filter(f).map_values(|d: (DockArea, u64)| d.1),
            decreases self@.docks.len() - i,
        {
            let d = self.docks[i];
            proof {
                let p = self@.docks.subrange(0, i as int);
                assert(self@.docks.subrange(0, i + 1) =~= p.push(d));
                p.lemma_filter_push(d, f);
            }
            if d.0 == area {
                out.push(d.1);
            }
            i = i + 1;
            proof {
                let q = self@.docks.subrange(0, i as int).filter(f);
                assert(out@ =~= q.map_values(|d: (DockArea, u64)| d.1));
            }
        }
        assert(self@.docks.subrange(0, i as int) =~= self@.docks);
        out
    }

    /// Shares the window out among its parts (`layoutRegions`): the menu
    /// bar and the tool bars across the top, the status bar across the
    /// bottom, the docks ([`dock_rect`]) and the central widget
    /// ([`central_rect`]) in the room between.
    #[verifier::rlimit(60)]
    pub fn layout_regions(&self) -> (r: RegionLayout)
        requires
            layout_fits(self@),
        ensures
            r.menu_bar == if self@.menu_bar_visible {
                Some(Rect { x: self@.geometry.x, y: self@.geometry.y, width: self@.geometry.width, height: MENU_BAR_HEIGHT })
            } else {
                None
            },
            r.tool_bars@.len() == self@.tool_bars.len(),
            forall|k: int|
                0 <= k < self@.tool_bars.len() ==> #[trigger] r.tool_bars@[k] == rect_of(
                    self@.geometry.x as int,
                    tool_bar_top(self@, k),
                    self@.geometry.width as int,
                    tool_bar_height(self@.tool_bars[k].1),
                ),
            r.status_bar == rect_of(
                self@.geometry.x as int,
                chrome_bottom(self@),
                self@.geometry.width as int,
                status_height(self@),
            ),
            r.docks@.len() == self@.docks.len(),
            forall|i: int| 0 <= i < self@.docks.len() ==> #[trigger] r.docks@[i] == dock_rect(self@, i),
            r.central == match self@.central {
                Some(_) => Some(central_rect(self@)),
                None => None,
            },
    {
        let g = self.geometry;
        let gx = g.x as i64;
        let gy = g.y as i64;
        let gw = g.width as i64;
        let gh = g.height as i64;
        let mut top: i64 = gy;
        let menu_bar = if self.menu_bar_visible {
            top = top + MENU_BAR_HEIGHT as i64;
            Some(Rect::new(g.x, g.y, g.width, MENU_BAR_HEIGHT))
        } else {
            None
        };
        let mut tool_bars: Vec<Rect> = Vec::new();
        let mut k: usize = 0;
        while k < self.tool_bars.len()
            invariant
                0 <= k <= self@.tool_bars.len(),
                layout_fits(self@),
                g == self@.geometry,
                gx == self@.geometry.x,
                gw == self@.geometry.width,
                top == tool_bar_top(self@, k as int),
                tool_bars@.len() == k,
                forall|j: int|
                    0 <= j < k ==> #[trigger] tool_bars@[j] == rect_of(
                        self@.geometry.x as int,
                        tool_bar_top(self@, j),
                        self@.geometry.width as int,
                        tool_bar_height(self@.tool_bars[j].1),
                    ),
            decreases self@.tool_bars.len() - k,
        {
            proof {
                lemma_tool_bar_top(self@, k as int);
                lemma_tool_bar_top(self@, k as int + 1);
            }
            let asked = self.tool_bars[k].1;
            let h: i64 = if asked as i64 > MIN_TOOL_BAR_HEIGHT as i64 {
                asked as i64
            } else {
                MIN_TOOL_BAR_HEIGHT as i64
            };
            let rk = Rect::new(g.x, top as i32, g.width, h as i32);
            assert(rk == rect_of(
                self@.geometry.x as int,
                tool_bar_top(self@, k as int),
                self@.geometry.width as int,
                tool_bar_height(self@.tool_bars[k as int].1),
            ));
            tool_bars.push(rk);
            top = top + h;
            k = k + 1;
        }
        proof {
            lemma_tool_bar_top(self@, self@.tool_bars.len() as int);
        }
        let chrome_top_v = top;
        let status_h: i64 = if self.status_bar_visible {
            STATUS_BAR_HEIGHT as i64
        } else {
            0
        };
        let chrome_bottom_v: i64 = gy + gh - status_h;
        let status_bar = Rect::new(g.x, chrome_bottom_v as i32, g.width, status_h as i32);
        let n = self.docks.len();
        // Count the docks of each area.
        let mut nl: i64 = 0;
        let mut nr: i64 = 0;
        let mut nt: i64 = 0;
        let mut nb: i64 = 0;
        let mut i: usize = 0;
        while i < n
            invariant
                0 <= i <= n == self@.docks.len() <= i32::MAX,
                nl == rank_in(self@.docks, DockArea::Left, i as int),
                nr == rank_in(self@.docks, DockArea::Right, i as int),
                nt == rank_in(self@.docks, DockArea::Top, i as int),
                nb == rank_in(self@.docks, DockArea::Bottom, i as int),
                0 <= nl <= i,
                0 <= nr <= i,
                0 <= nt <= i,
                0 <= nb <= i,
            decreases n - i,
        {
            match self.docks[i].0 {
                DockArea::Left => {
                    nl = nl + 1;
                },
                DockArea::Right => {
                    nr = nr + 1;
                },
                DockArea::Top => {
                    nt = nt + 1;
                },
                DockArea::Bottom => {
                    nb = nb + 1;
                },
            }
            i = i + 1;
        }
        let room_l: i64 = if gw > 0 {
            gw
        } else {
            0
        };
        let div_l: i64 = if nl > 1 {
            nl
        } else {
            1
        };
        let ql = room_l / div_l;
        let wl: i64 = if (MAX_SIDE_DOCK_WIDTH as i64) < ql {
            MAX_SIDE_DOCK_WIDTH as i64
        } else {
            ql
        };
        proof {
            assert(nl * wl <= nl * ql || nl == 0) by (nonlinear_arith)
                requires
                    0 <= wl <= ql,
                    nl >= 0,
            ;
            vstd::arithmetic::div_mod::lemma_fundamental_div_mod(room_l as int, div_l as int);
            vstd::arithmetic::div_mod::lemma_mod_bound(room_l as int, div_l as int);
            assert(nl * ql <= room_l) by (nonlinear_arith)
                requires
                    room_l == div_l * ql + room_l % div_l,
                    0 <= room_l % div_l,
                    nl <= div_l,
                    ql >= 0,
                    nl >= 0,
            ;
            assert(0 <= nl * wl) by (nonlinear_arith)
                requires
                    nl >= 0,
                    wl >= 0,
            ;
        }
        let left: i64 = gx + nl * wl;
        let room_r0: i64 = gx + gw - left;
        let room_r: i64 = if room_r0 > 0 {
            room_r0
        } else {
            0
        };
        let div_r: i64 = if nr > 1 {
            nr
        } else {
            1
        };
        let qr = room_r / div_r;
        let wr: i64 = if (MAX_SIDE_DOCK_WIDTH as i64) < qr {
            MAX_SIDE_DOCK_WIDTH as i64
        } else {
            qr
        };
        proof {
            vstd::arithmetic::div_mod::lemma_fundamental_div_mod(room_r as int, div_r as int);
            vstd::arithmetic::div_mod::lemma_mod_bound(room_r as int, div_r as int);
            assert(nr * wr <= room_r) by (nonlinear_arith)
                requires
                    room_r == div_r * qr + room_r % div_r,
                    0 <= room_r % div_r,
                    nr <= div_r,
                    0 <= wr <= qr,
                    nr >= 0,
            ;
            assert(0 <= nr * wr) by (nonlinear_arith)
                requires
                    nr >= 0,
                    wr >= 0,
            ;
        }
        let right: i64 = gx + gw - nr * wr;
        let cw: i64 = if right - left > 0 {
            right - left
        } else {
            0
        };
        let side_h: i64 = if chrome_bottom_v - chrome_top_v > 0 {
            chrome_bottom_v - chrome_top_v
        } else {
            0
        };
        // Top of the central area after the top docks.
        let mut t: i64 = chrome_top_v;
        let mut j: i64 = 0;
        while j < nt
            invariant
                0 <= j <= nt,
                t == top_dock_top(self@, j as int),
                chrome_top_v == chrome_top(self@),
                chrome_bottom_v == chrome_bottom(self@),
                i32::MIN <= chrome_top_v <= i32::MAX,
                i32::MIN <= chrome_bottom_v - chrome_top_v <= i32::MAX,
                i32::MIN <= chrome_bottom_v <= i32::MAX,
            decreases nt - j,
        {
            proof {
                lemma_top_docks(self@, j as int);
            }
            let room = if chrome_bottom_v - t > 0 {
                chrome_bottom_v - t
            } else {
                0
            };
            let h = if (MAX_EDGE_DOCK_HEIGHT as i64) < room {
                MAX_EDGE_DOCK_HEIGHT as i64
            } else {
                room
            };
            t = t + h;
            j = j + 1;
        }
        let inner_top_v = t;
        proof {
            lemma_top_docks(self@, nt as int);
            assert(i32::MIN <= inner_top_v <= i32::MAX);
            lemma_rank_bound(self@.docks, DockArea::Left, n as int);
            lemma_rank_bound(self@.docks, DockArea::Right, n as int);
        }
        let mut docks: Vec<Rect> = Vec::new();
        let mut cl: i64 = 0;
        let mut cr: i64 = 0;
        let mut ct: i64 = 0;
        let mut cb: i64 = 0;
        let mut tt: i64 = chrome_top_v;
        let mut bb: i64 = chrome_bottom_v;
        let mut i2: usize = 0;
        while i2 < n
            invariant
                0 <= i2 <= n == self@.docks.len() <= i32::MAX,
                layout_fits(self@),
                gx == self@.geometry.x,
                gw == self@.geometry.width,
                chrome_top_v == chrome_top(self@),
                chrome_bottom_v == chrome_bottom(self@),
                i32::MIN <= chrome_top_v <= i32::MAX,
                i32::MIN <= chrome_bottom_v - chrome_top_v <= i32::MAX,
                i32::MIN <= chrome_bottom_v <= i32::MAX,
                inner_top_v == inner_top(self@),
                i32::MIN <= inner_top_v <= i32::MAX,
                nl == count_in(self@.docks, DockArea::Left),
                nl <= n,
                nr <= n,
                nr == count_in(self@.docks, DockArea::Right),
                nt == count_in(self@.docks, DockArea::Top),
                wl == left_width(self@),
                wr == right_width(self@),
                left == inner_left(self@),
                right == inner_right(self@),
                cw == max_int(right - left, 0),
                side_h == max_int(chrome_bottom_v - chrome_top_v, 0),
                0 <= nl * wl <= max_int(gw as int, 0),
                0 <= nr * wr <= max_int(gx + gw - left, 0),
                0 <= wl <= 200,
                0 <= wr <= 200,
                cl == rank_in(self@.docks, DockArea::Left, i2 as int),
                cr == rank_in(self@.docks, DockArea::Right, i2 as int),
                ct == rank_in(self@.docks, DockArea::Top, i2 as int),
                cb == rank_in(self@.docks, DockArea::Bottom, i2 as int),
                0 <= cl <= nl,
                0 <= cr <= nr,
                tt == top_dock_top(self@, ct as int),
                bb == bottom_dock_bottom(self@, cb as int),
                docks@.len() == i2,
                forall|q: int| 0 <= q < i2 ==> #[trigger] docks@[q] == dock_rect(self@, q),
            decreases n - i2,
        {
            proof {
                lemma_rank_bound(self@.docks, DockArea::Left, i2 as int);
                lemma_rank_bound(self@.docks, DockArea::Right, i2 as int);
                lemma_rank_bound(self@.docks, DockArea::Top, i2 as int);
                lemma_rank_bound(self@.docks, DockArea::Bottom, i2 as int);
                lemma_top_docks(self@, ct as int);
                lemma_top_docks(self@, ct as int + 1);
                lemma_bottom_docks(self@, cb as int);
                lemma_bottom_docks(self@, cb as int + 1);
                lemma_rank_count(self@.docks, DockArea::Left, i2 as int);
                lemma_rank_count(self@.docks, DockArea::Right, i2 as int);
                assert(cl * wl <= nl * wl) by (nonlinear_arith)
                    requires
                        0 <= cl <= nl,
                        wl >= 0,
                ;
                assert((cr + 1) * wr <= nr * wr || cr >= nr) by (nonlinear_arith)
                    requires
                        0 <= cr,
                        wr >= 0,
                ;
                assert(cl * wl >= 0 && cr * wr >= 0) by (nonlinear_arith)
                    requires
                        cl >= 0,
                        cr >= 0,
                        wl >= 0,
                        wr >= 0,
                ;
            }
            let area = self.docks[i2].0;
            let r = match area {
                DockArea::Left => {
                    let x = gx + cl * wl;
                    cl = cl + 1;
                    Rect::new(x as i32, chrome_top_v as i32, wl as i32, side_h as i32)
                },
                DockArea::Right => {
                    assert((cr + 1) * wr <= nr * wr) by (nonlinear_arith)
                        requires
                            0 <= cr + 1 <= nr,
                            0 <= wr,
                    ;
                    assert((cr + 1) * wr >= 0) by (nonlinear_arith)
                        requires
                            0 <= cr + 1,
                            0 <= wr,
                    ;
                    let x = gx + gw - (cr + 1) * wr;
                    cr = cr + 1;
                    Rect::new(x as i32, chrome_top_v as i32, wr as i32, side_h as i32)
                },
                DockArea::Top => {
                    let room = if chrome_bottom_v - tt > 0 {
                        chrome_bottom_v - tt
                    } else {
                        0
                    };
                    let h = if (MAX_EDGE_DOCK_HEIGHT as i64) < room {
                        MAX_EDGE_DOCK_HEIGHT as i64
                    } else {
                        room
                    };
                    let rr = Rect::new(left as i32, tt as i32, cw as i32, h as i32);
                    tt = tt + h;
                    ct = ct + 1;
                    rr
                },
                DockArea::Bottom => {
                    let room = if bb - inner_top_v > 0 {
                        bb - inner_top_v
                    } else {
                        0
                    };
                    let h = if (MAX_EDGE_DOCK_HEIGHT as i64) < room {
                        MAX_EDGE_DOCK_HEIGHT as i64
                    } else {
                        room
                    };
                    bb = bb - h;
                    cb = cb + 1;
                    Rect::new(left as i32, bb as i32, cw as i32, h as i32)
                },
            };
            docks.push(r);
            i2 = i2 + 1;
        }
        // Bottom of the central area after the bottom docks.
        let mut b: i64 = chrome_bottom_v;
        let mut j2: i64 = 0;
        while j2 < nb
            invariant
                0 <= j2 <= nb,
                b == bottom_dock_bottom(self@, j2 as int),
                chrome_bottom_v == chrome_bottom(self@),
                inner_top_v == inner_top(self@),
                i32::MIN <= chrome_bottom_v <= i32::MAX,
                i32::MIN <= inner_top_v <= i32::MAX,
            decreases nb - j2,
        {
            proof {
                lemma_bottom_docks(self@, j2 as int);
            }
            let room = if b - inner_top_v > 0 {
                b - inner_top_v
            } else {
                0
            };
            let h = if (MAX_EDGE_DOCK_HEIGHT as i64) < room {
                MAX_EDGE_DOCK_HEIGHT as i64
            } else {
                room
            };
            b = b - h;
            j2 = j2 + 1;
        }
        proof {
            lemma_bottom_docks(self@, nb as int);
        }
        let central = match self.central {
            Some(_) => {
                let ch = if b - inner_top_v > 0 {
                    b - inner_top_v
                } else {
                    0
                };
                Some(Rect::new(left as i32, inner_top_v as i32, cw as i32, ch as i32))
            },
            None => None,
        };
        RegionLayout { menu_bar, tool_bars, status_bar, docks, central }
    }
}

/// A rank stays within the count, and the rank of a dock in its own area
/// is below the count.
proof fn lemma_rank_count(docks: Seq<(DockArea, u64)>, area: DockArea, i: int)
    requires
        0 <= i < docks.len(),
    ensures
        rank_in(docks, area, i) <= count_in(docks, area),
        docks[i].0 == area ==> rank_in(docks, area, i) + 1 <= count_in(docks, area),
{
    lemma_rank_mono(docks, area, i + 1, docks.len() as int);
}

/// Ranks do not decrease along the docks.
proof fn lemma_rank_mono(docks: Seq<(DockArea, u64)>, area: DockArea, i: int, j: int)
    requires
        0 <= i <= j <= docks.len(),
    ensures
        rank_in(docks, area, i) <= rank_in(docks, area, j),
    decreases j - i,
{
    if i < j {
        lemma_rank_mono(docks, area, i, j - 1);
    }
}

} // verus!
