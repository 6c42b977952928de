//! Box layouts (`QBoxLayout`): items stacked in one direction, sharing the
//! space along it and filling (or keeping their hint) across it.

use vstd::prelude::*;

use crate::geometry::{Margins, Rect, Size};
use crate::layout::{
    bounds_ordered, clamp, distribute_1d_space, distribution, ints, stretch_sum, Direction,
    LayoutItem, SpaceItem,
};
use crate::size_policy::{Policy, QSizePolicy};

verus! {

/// What a layout reads from one of its widgets.
#[derive(Debug, Clone, Copy, PartialEq, Eq, Structural)]
pub struct ItemMetrics {
    pub size_hint: Size,
    pub minimum_size: Size,
    pub maximum_size: Size,
    pub size_policy: QSizePolicy,
}

/// Whether `x` fits in an `i32`.
pub open spec fn is_i32(x: int) -> bool {
    i32::MIN <= x <= i32::MAX
}

/// The larger of two stretch factors.
pub open spec fn max_stretch(a: u32, b: u32) -> u32 {
    if a >= b {
        a
    } else {
        b
    }
}

/// How an item takes part in sharing the space along `dir`: its hint, bounds
/// and policy in that direction, and the larger of the item's and the
/// policy's stretch.
pub open spec fn main_item(m: ItemMetrics, stretch: u32, dir: Direction) -> SpaceItem {
    match dir {
        Direction::TopToBottom => (
            m.size_hint.height,
            m.minimum_size.height,
            m.maximum_size.height,
            m.size_policy.vertical,
            max_stretch(stretch, m.size_policy.vertical_stretch),
        ),
        Direction::LeftToRight => (
            m.size_hint.width,
            m.minimum_size.width,
            m.maximum_size.width,
            m.size_policy.horizontal,
            max_stretch(stretch, m.size_policy.horizontal_stretch),
        ),
    }
}

/// The extent of an item across `dir`: its hint for a fixed policy, the
/// whole `avail` otherwise, within its bounds.
pub open spec fn cross_extent(m: ItemMetrics, dir: Direction, avail: int) -> int {
    let (policy, hint, lo, hi) = match dir {
        Direction::TopToBottom => (
            m.size_policy.horizontal,
            m.size_hint.width,
            m.minimum_size.width,
            m.maximum_size.width,
        ),
        Direction::LeftToRight => (
            m.size_policy.vertical,
            m.size_hint.height,
            m.minimum_size.height,
            m.maximum_size.height,
        ),
    };
    if policy == Policy::Fixed {
        clamp(hint as int, lo as int, hi as int)
    } else {
        clamp(avail, lo as int, hi as int)
    }
}

/// The bounds across `dir` are ordered.
pub open spec fn cross_ordered(m: ItemMetrics, dir: Direction) -> bool {
    match dir {
        Direction::TopToBottom => m.minimum_size.width <= m.maximum_size.width,
        Direction::LeftToRight => m.minimum_size.height <= m.maximum_size.height,
    }
}

/// `start` advanced past the first `k` sizes, each followed by `spacing`.
pub open spec fn running(start: int, sizes: Seq<int>, spacing: int, k: int) -> int
    decreases k,
{
    if k <= 0 {
        start
    } else {
        running(start, sizes, spacing, k - 1) + sizes[k - 1] + spacing
    }
}

/// A box layout as plain values.
pub struct BoxLayoutView {
    pub direction: Direction,
    pub geometry: Rect,
    pub margins: Margins,
    pub spacing: i32,
    pub items: Seq<LayoutItem>,
}

/// Left edge of the area inside the margins.
pub open spec fn inner_x(g: Rect, m: Margins) -> int {
    g.x + m.left
}

/// Top edge of the area inside the margins.
pub open spec fn inner_y(g: Rect, m: Margins) -> int {
    g.y + m.top
}

/// Width inside the margins, at least zero.
pub open spec fn inner_w(g: Rect, m: Margins) -> int {
    if g.width - m.left - m.right > 0 {
        g.width - m.left - m.right
    } else {
        0
    }
}

/// Height inside the margins, at least zero.
pub open spec fn inner_h(g: Rect, m: Margins) -> int {
    if g.height - m.top - m.bottom > 0 {
        g.height - m.top - m.bottom
    } else {
        0
    }
}

/// The items as they share the space along the layout's direction.
pub open spec fn box_main_items(v: BoxLayoutView, ms: Seq<ItemMetrics>) -> Seq<SpaceItem> {
    Seq::new(v.items.len(), |i: int| main_item(ms[i], v.items[i].stretch, v.direction))
}

/// The spacing between the items, all together.
pub open spec fn box_total_spacing(v: BoxLayoutView) -> int {
    if v.items.len() > 1 {
        (v.items.len() - 1) * v.spacing
    } else {
        0
    }
}

/// The space left for the items along the direction.
pub open spec fn box_main_avail(v: BoxLayoutView) -> int {
    let inner = match v.direction {
        Direction::TopToBottom => inner_h(v.geometry, v.margins),
        Direction::LeftToRight => inner_w(v.geometry, v.margins),
    };
    if inner - box_total_spacing(v) > 0 {
        inner - box_total_spacing(v)
    } else {
        0
    }
}

/// The sizes of the items along the direction.
pub open spec fn box_sizes(v: BoxLayoutView, ms: Seq<ItemMetrics>) -> Seq<int> {
    distribution(box_main_items(v, ms), box_main_avail(v))
}

/// The geometry of item `k`: stacked one after the other from the inner
/// area's start, separated by the spacing.
pub open spec fn box_rect(v: BoxLayoutView, ms: Seq<ItemMetrics>, k: int) -> Rect {
    let sizes = box_sizes(v, ms);
    match v.direction {
        Direction::TopToBottom => Rect {
            x: inner_x(v.geometry, v.margins) as i32,
            y: running(inner_y(v.geometry, v.margins), sizes, v.spacing as int, k) as i32,
            width: cross_extent(ms[k], v.direction, inner_w(v.geometry, v.margins)) as i32,
            height: sizes[k] as i32,
        },
        Direction::LeftToRight => Rect {
            x: running(inner_x(v.geometry, v.margins), sizes, v.spacing as int, k) as i32,
            y: inner_y(v.geometry, v.margins) as i32,
            width: sizes[k] as i32,
            height: cross_extent(ms[k], v.direction, inner_h(v.geometry, v.margins)) as i32,
        },
    }
}

/// Where the layout puts its items (`QBoxLayout::setGeometry`).
pub open spec fn box_rects(v: BoxLayoutView, ms: Seq<ItemMetrics>) -> Seq<Rect> {
    Seq::new(v.items.len(), |k: int| box_rect(v, ms, k))
}

/// The inputs on which laying out stays within `i32` arithmetic and every
/// bound is ordered: the inner area, the spacing, every size plus the spacing
/// and every running position fit, and the stretch factors sum within `u32`.
pub open spec fn box_fits(v: BoxLayoutView, ms: Seq<ItemMetrics>) -> bool {
    let g = v.geometry;
    let m = v.margins;
    let n = v.items.len();
    let sizes = box_sizes(v, ms);
    let inner = match v.direction {
        Direction::TopToBottom => inner_h(g, m),
        Direction::LeftToRight => inner_w(g, m),
    };
    &&& ms.len() == n
    &&& n <= i32::MAX
    &&& is_i32(g.x + m.left) && is_i32(g.y + m.top)
    &&& is_i32(g.width - m.left) && is_i32(g.width - m.left - m.right)
    &&& is_i32(g.height - m.top) && is_i32(g.height - m.top - m.bottom)
    &&& is_i32(box_total_spacing(v))
    &&& is_i32(inner - box_total_spacing(v))
    &&& bounds_ordered(box_main_items(v, ms))
    &&& stretch_sum(box_main_items(v, ms)) <= u32::MAX
    &&& forall|k: int| 0 <= k < n ==> #[trigger] cross_ordered(ms[k], v.direction)
    &&& forall|k: int| 0 <= k < n ==> is_i32(#[trigger] sizes[k] + v.spacing)
    &&& forall|k: int| 0 <= k <= n ==> is_i32(#[trigger] running(box_start(v), sizes, v.spacing as int, k))
}

/// Where the first item starts along the direction.
pub open spec fn box_start(v: BoxLayoutView) -> int {
    match v.direction {
        Direction::TopToBottom => inner_y(v.geometry, v.margins),
        Direction::LeftToRight => inner_x(v.geometry, v.margins),
    }
}

/// The extent of the first `k` items' size hints together: along the
/// direction their sum, across it the largest (at least zero).
pub open spec fn hint_totals(v: BoxLayoutView, ms: Seq<ItemMetrics>, k: int) -> (int, int)
    decreases k,
{
    if k <= 0 {
        (0, 0)
    } else {
        let (w, h) = hint_totals(v, ms, k - 1);
        let hint = ms[k - 1].size_hint;
        match v.direction {
            Direction::TopToBottom => (if hint.width > w {
                hint.width as int
            } else {
                w
            }, h + hint.height),
            Direction::LeftToRight => (w + hint.width, if hint.height > h {
                hint.height as int
            } else {
                h
            }),
        }
    }
}

/// The layout's preferred extent (`QBoxLayout::sizeHint`): the items' hints
/// together, the spacing between them, and the margins.
pub open spec fn box_size_hint(v: BoxLayoutView, ms: Seq<ItemMetrics>) -> (int, int) {
    let m = v.margins;
    if v.items.len() == 0 {
        (m.left + m.right, m.top + m.bottom)
    } else {
        let (w, h) = hint_totals(v, ms, v.items.len() as int);
        let (w2, h2) = match v.direction {
            Direction::TopToBottom => (w, h + box_total_spacing(v)),
            Direction::LeftToRight => (w + box_total_spacing(v), h),
        };
        (w2 + m.left + m.right, h2 + m.top + m.bottom)
    }
}

/// The inputs on which the size hint stays within `i32` arithmetic.
pub open spec fn box_hint_fits(v: BoxLayoutView, ms: Seq<ItemMetrics>) -> bool {
    let m = v.margins;
    let n = v.items.len();
    &&& ms.len() == n
    &&& n <= i32::MAX
    &&& is_i32(m.left + m.right) && is_i32(m.top + m.bottom)
    &&& forall|k: int|
        0 <= k <= n ==> is_i32((#[trigger] hint_totals(v, ms, k)).0) && is_i32(hint_totals(v, ms, k).1)
    &&& is_i32(box_total_spacing(v))
    &&& n > 0 ==> {
        let (w, h) = hint_totals(v, ms, n as int);
        let (w2, h2) = match v.direction {
            Direction::TopToBottom => (w, h + box_total_spacing(v)),
            Direction::LeftToRight => (w + box_total_spacing(v), h),
        };
        is_i32(w2) && is_i32(h2) && is_i32(w2 + m.left) && is_i32(w2 + m.left + m.right) && is_i32(
            h2 + m.top,
        ) && is_i32(h2 + m.top + m.bottom)
    }
}

/// A linear layout arranging items horizontally or vertically (`QBoxLayout`).
pub struct BoxLayout {
    direction: Direction,
    geometry: Rect,
    margins: Margins,
    spacing: i32,
    items: Vec<LayoutItem>,
}

impl View for BoxLayout {
    type V = BoxLayoutView;

    closed spec fn view(&self) -> BoxLayoutView {
        BoxLayoutView {
            direction: self.direction,
            geometry: self.geometry,
            margins: self.margins,
            spacing: self.spacing,
            items: self.items@,
        }
    }
}

/// The extent of an item across the layout, computed.
fn cross_extent_exec(m: &ItemMetrics, dir: Direction, avail: i32) -> (r: i32)
    requires
        cross_ordered(*m, dir),
    ensures
        r == cross_extent(*m, dir, avail as int),
{
    let (policy, hint, lo, hi) = match dir {
        Direction::TopToBottom => (
            m.size_policy.horizontal,
            m.size_hint.width,
            m.minimum_size.width,
            m.maximum_size.width,
        ),
        Direction::LeftToRight => (
            m.size_policy.vertical,
            m.size_hint.height,
            m.minimum_size.height,
            m.maximum_size.height,
        ),
    };
    let v = match policy {
        Policy::Fixed => hint,
        _ => avail,
    };
    if v < lo {
        lo
    } else if v > hi {
        hi
    } else {
        v
    }
}

impl BoxLayout {
    /// An empty layout stacking in `direction`, at the origin without extent,
    /// without margins, with spacing 6.
    pub fn new(direction: Direction) -> (r: BoxLayout)
        ensures
            r@ == (BoxLayoutView {
                direction,
                geometry: Rect { x: 0, y: 0, width: 0, height: 0 },
                margins: Margins { left: 0, top: 0, right: 0, bottom: 0 },
                spacing: 6,
                items: Seq::empty(),
            }),
    {
        let r = BoxLayout {
            direction,
            geometry: Rect::new(0, 0, 0, 0),
            margins: Margins::new(0, 0, 0, 0),
            spacing: 6,
            items: Vec::new(),
        };
        assert(r@.items =~= Seq::<LayoutItem>::empty());
        r
    }

    /// An empty left-to-right layout.
    pub fn horizontal() -> (r: BoxLayout)
        ensures
            r@ == (BoxLayoutView {
                direction: Direction::LeftToRight,
                geometry: Rect { x: 0, y: 0, width: 0, height: 0 },
                margins: Margins { left: 0, top: 0, right: 0, bottom: 0 },
                spacing: 6,
                items: Seq::empty(),
            }),
    {
        BoxLayout::new(Direction::LeftToRight)
    }

    /// An empty top-to-bottom layout.
    pub fn vertical() -> (r: BoxLayout)
        ensures
            r@ == (BoxLayoutView {
                direction: Direction::TopToBottom,
                geometry: Rect { x: 0, y: 0, width: 0, height: 0 },
                margins: Margins { left: 0, top: 0, right: 0, bottom: 0 },
                spacing: 6,
                items: Seq::empty(),
            }),
    {
        BoxLayout::new(Direction::TopToBottom)
    }

    pub fn direction(&self) -> (r: Direction)
        ensures
            r == self@.direction,
    {
        self.direction
    }

    pub fn set_direction(&mut self, direction: Direction)
        ensures
            final(self)@ == (BoxLayoutView { direction, ..old(self)@ }),
    {
        self.direction = direction;
    }

    /// Number of items.
    pub fn count(&self) -> (r: usize)
        ensures
            r == self@.items.len(),
    {
        self.items.len()
    }

    /// The items, in order.
    pub fn items(&self) -> (r: &[LayoutItem])
        ensures
            r@ == self@.items,
    {
        self.items.as_slice()
    }

    /// Inserts `widget` with `stretch` before position `index` (at the end
    /// when `index` is past it).
    pub fn insert_widget(&mut self, index: usize, widget: u64, stretch: u32)
        ensures
            ({
                let at = if index <= old(self)@.items.len() {
                    index as int
                } else {
                    old(self)@.items.len() as int
                };
                final(self)@ == (BoxLayoutView {
                    items: old(self)@.items.insert(at, LayoutItem { widget, stretch }),
                    ..old(self)@
                })
            }),
    {
        let at = if index <= self.items.len() {
            index
        } else {
            self.items.len()
        };
        self.items.insert(at, LayoutItem { widget, stretch });
    }

    /// Removes the item at `index` and returns its widget, or `None` when
    /// there is no such item.
    pub fn remove_widget(&mut self, index: usize) -> (r: Option<u64>)
        ensures
            index < old(self)@.items.len() ==> r == Some(old(self)@.items[index as int].widget)
                && final(self)@ == (BoxLayoutView {
                items: old(self)@.items.remove(index as int),
                ..old(self)@
            }),
            index >= old(self)@.items.len() ==> r is None && final(self)@ == old(self)@,
    {
        if index < self.items.len() {
            let item = self.items.remove(index);
            Some(item.widget)
        } else {
            None
        }
    }

    pub fn geometry(&self) -> (r: Rect)
        ensures
            r == self@.geometry,
    {
        self.geometry
    }

    /// Moves the layout to `rect`; [`BoxLayout::item_geometries`] then gives
    /// the items' new places.
    pub fn set_geometry(&mut self, rect: Rect)
        ensures
            final(self)@ == (BoxLayoutView { geometry: rect, ..old(self)@ }),
    {
        self.geometry = rect;
    }

    /// Appends `widget` without stretch.
    pub fn add_widget(&mut self, widget: u64)
        ensures
            final(self)@ == (BoxLayoutView {
                items: old(self)@.items.push(LayoutItem { widget, stretch: 0 }),
                ..old(self)@
            }),
    {
        self.add_widget_with_stretch(widget, 0);
    }

    /// Appends `widget` with `stretch`.
    pub fn add_widget_with_stretch(&mut self, widget: u64, stretch: u32)
        ensures
            final(self)@ == (BoxLayoutView {
                items: old(self)@.items.push(LayoutItem { widget, stretch }),
                ..old(self)@
            }),
    {
        self.items.push(LayoutItem { widget, stretch });
    }

    pub fn set_margins(&mut self, margins: Margins)
        ensures
            final(self)@ == (BoxLayoutView { margins, ..old(self)@ }),
    {
        self.margins = margins;
    }

    pub fn margins(&self) -> (r: Margins)
        ensures
            r == self@.margins,
    {
        self.margins
    }

    pub fn set_spacing(&mut self, spacing: i32)
        ensures
            final(self)@ == (BoxLayoutView { spacing, ..old(self)@ }),
    {
        self.spacing = spacing;
    }

    pub fn spacing(&self) -> (r: i32)
        ensures
            r == self@.spacing,
    {
        self.spacing
    }

    /// Where the items go, given what each item's widget reports
    /// (`metrics[k]` for item `k`): [`box_rects`].
    pub fn item_geometries(&self, metrics: &[ItemMetrics]) -> (r: Vec<Rect>)
        requires
            box_fits(self@, metrics@),
        ensures
            r@ == box_rects(self@, metrics@),
    {
        let n = self.items.len();
        let mut out: Vec<Rect> = Vec::new();
        if n == 0 {
            assert(out@ =~= box_rects(self@, metrics@));
            return out;
        }
        let g = self.geometry;
        let m = self.margins;
        let avail_x = g.x + m.left;
        let avail_y = g.y + m.top;
        let w0 = g.width - m.left - m.right;
        let avail_w = if w0 > 0 {
            w0
        } else {
            0
        };
        let h0 = g.height - m.top - m.bottom;
        let avail_h = if h0 > 0 {
            h0
        } else {
            0
        };
        let gaps = (n - 1) as i32;
        assert(gaps == n - 1);
        let total_spacing = if gaps > 0 {
            gaps * self.spacing
        } else {
            0
        };
        assert(total_spacing == box_total_spacing(self@));
        let inner = match self.direction {
            Direction::TopToBottom => avail_h,
            Direction::LeftToRight => avail_w,
        };
        let net0 = inner - total_spacing;
        let net = if net0 > 0 {
            net0
        } else {
            0
        };
        let mut specs: Vec<SpaceItem> = Vec::new();
        let mut i: usize = 0;
        while i < n
            invariant
                0 <= i <= n == self.items@.len() == metrics@.len(),
                specs@ == box_main_items(self@, metrics@).subrange(0, i as int),
            decreases n - i,
        {
            let mt = metrics[i];
            let st = self.items[i].stretch;
            let spec = match self.direction {
                Direction::TopToBottom => (
                    mt.size_hint.height,
                    mt.minimum_size.height,
                    mt.maximum_size.height,
                    mt.size_policy.vertical,
                    if st >= mt.size_policy.vertical_stretch {
                        st
                    } else {
                        mt.size_policy.vertical_stretch
                    },
                ),
                Direction::LeftToRight => (
                    mt.size_hint.width,
                    mt.minimum_size.width,
                    mt.maximum_size.width,
                    mt.size_policy.horizontal,
                    if st >= mt.size_policy.horizontal_stretch {
                        st
                    } else {
                        mt.size_policy.horizontal_stretch
                    },
                ),
            };
            specs.push(spec);
            i = i + 1;
            assert(specs@ =~= box_main_items(self@, metrics@).subrange(0, i as int));
        }
        assert(specs@ =~= box_main_items(self@, metrics@));
        let sizes = distribute_1d_space(specs.as_slice(), net);
        let ghost sz = box_sizes(self@, metrics@);
        assert(ints(sizes@) == sz);
        let ghost start: int = match self.direction {
            Direction::TopToBottom => avail_y as int,
            Direction::LeftToRight => avail_x as int,
        };
        let mut cur: i32 = match self.direction {
            Direction::TopToBottom => avail_y,
            Direction::LeftToRight => avail_x,
        };
        let mut k: usize = 0;
        while k < n
            invariant
                0 <= k <= n == self.items@.len() == metrics@.len() == sizes@.len(),
                box_fits(self@, metrics@),
                ints(sizes@) == sz,
                sz == box_sizes(self@, metrics@),
                start == box_start(self@),
                avail_x == inner_x(self@.geometry, self@.margins),
                avail_y == inner_y(self@.geometry, self@.margins),
                avail_w == inner_w(self@.geometry, self@.margins),
                avail_h == inner_h(self@.geometry, self@.margins),
                cur == running(start, sz, self.spacing as int, k as int),
                out@ =~= box_rects(self@, metrics@).subrange(0, k as int),
            decreases n - k,
        {
            let h = sizes[k];
            assert(h == sz[k as int]);
            assert(cross_ordered(metrics@[k as int], self.direction));
            let rect = match self.direction {
                Direction::TopToBottom => Rect::new(
                    avail_x,
                    cur,
                    cross_extent_exec(&metrics[k], self.direction, avail_w),
                    h,
                ),
                Direction::LeftToRight => Rect::new(
                    cur,
                    avail_y,
                    h,
                    cross_extent_exec(&metrics[k], self.direction, avail_h),
                ),
            };
            assert(rect == box_rect(self@, metrics@, k as int));
            out.push(rect);
            assert(is_i32(sz[k as int] + self.spacing));
            assert(is_i32(running(box_start(self@), box_sizes(self@, metrics@), self@.spacing as int, k as int + 1)));
            cur = cur + (h + self.spacing);
            k = k + 1;
        }
        assert(out@ =~= box_rects(self@, metrics@));
        out
    }

    /// The layout's preferred extent, given what each item's widget reports
    /// (`metrics[k]` for item `k`): [`box_size_hint`].
    pub fn size_hint(&self, metrics: &[ItemMetrics]) -> (r: Size)
        requires
            box_hint_fits(self@, metrics@),
        ensures
            r.width == box_size_hint(self@, metrics@).0,
            r.height == box_size_hint(self@, metrics@).1,
    {
        let m = self.margins;
        let n = self.items.len();
        if n == 0 {
            return Size::new(m.left + m.right, m.top + m.bottom);
        }
        let mut w: i32 = 0;
        let mut h: i32 = 0;
        let mut k: usize = 0;
        while k < n
            invariant
                0 <= k <= n == self.items@.len() == metrics@.len(),
                box_hint_fits(self@, metrics@),
                (w as int, h as int) == hint_totals(self@, metrics@, k as int),
            decreases n - k,
        {
            let hint = metrics[k].size_hint;
            assert(is_i32(hint_totals(self@, metrics@, k as int + 1).0));
            assert(is_i32(hint_totals(self@, metrics@, k as int + 1).1));
            match self.direction {
                Direction::TopToBottom => {
                    if hint.width > w {
                        w = hint.width;
                    }
                    h = h + hint.height;
                },
                Direction::LeftToRight => {
                    w = w + hint.width;
                    if hint.height > h {
                        h = hint.height;
                    }
                },
            }
            k = k + 1;
        }
        let gaps = (n - 1) as i32;
        let total_spacing = if gaps > 0 {
            gaps * self.spacing
        } else {
            0
        };
        assert(total_spacing == box_total_spacing(self@));
        match self.direction {
            Direction::TopToBottom => {
                h = h + total_spacing;
            },
            Direction::LeftToRight => {
                w = w + total_spacing;
            },
        }
        Size::new(w + m.left + m.right, h + m.top + m.bottom)
    }
}

} // verus!
