//! Grid layouts (`QGridLayout`): items in cells of rows and columns, possibly
//! spanning several; each column and row takes its share of the space from
//! the items that occupy it alone.

use vstd::prelude::*;

use crate::geometry::{Margins, Rect, Size};
use crate::layout::box_layout::{inner_h, inner_w, inner_x, inner_y, is_i32, running, ItemMetrics};
use crate::layout::{bounds_ordered, distribute_1d_space, distribution, ints, stretch_sum, sum, GridItem, SpaceItem};
use crate::size_policy::Policy;

verus! {

/// Largest extent a grid line may take (`QWIDGETSIZE_MAX`).
pub const GRID_MAX_EXTENT: i32 = 16777215;

/// A grid layout as plain values.
pub struct GridLayoutView {
    pub geometry: Rect,
    pub margins: Margins,
    pub h_spacing: i32,
    pub v_spacing: i32,
    pub items: Seq<GridItem>,
    pub row_stretches: Seq<u32>,
    pub col_stretches: Seq<u32>,
}

/// Number of rows the items occupy: one past the last row any item reaches.
pub open spec fn grid_rows(items: Seq<GridItem>) -> int
    decreases items.len(),
{
    if items.len() == 0 {
        0
    } else {
        let r = grid_rows(items.drop_last());
        let e = items.last().row + items.last().row_span;
        if e > r {
            e
        } else {
            r
        }
    }
}

/// Number of columns the items occupy: one past the last column any item reaches.
pub open spec fn grid_cols(items: Seq<GridItem>) -> int
    decreases items.len(),
{
    if items.len() == 0 {
        0
    } else {
        let r = grid_cols(items.drop_last());
        let e = items.last().column + items.last().col_span;
        if e > r {
            e
        } else {
            r
        }
    }
}

/// What one grid line takes from the first `k` items that occupy it alone:
/// the largest hint and minimum (at least zero), the smallest maximum (at
/// most [`GRID_MAX_EXTENT`]), and whether any of them expands. `rows` selects
/// rows (heights, vertical policies) or columns (widths, horizontal policies).
pub open spec fn line_agg(items: Seq<GridItem>, ms: Seq<ItemMetrics>, rows: bool, line: int, k: int) -> (
    i32,
    i32,
    i32,
    bool,
)
    decreases k,
{
    if k <= 0 {
        (0, 0, GRID_MAX_EXTENT, false)
    } else {
        let (h, lo, hi, e) = line_agg(items, ms, rows, line, k - 1);
        let it = items[k - 1];
        let m = ms[k - 1];
        let alone = if rows {
            it.row == line && it.row_span == 1
        } else {
            it.column == line && it.col_span == 1
        };
        if alone {
            let (mh, mlo, mhi, exp) = if rows {
                (m.size_hint.height, m.minimum_size.height, m.maximum_size.height, m.size_policy.vertical.spec_is_expanding())
            } else {
                (m.size_hint.width, m.minimum_size.width, m.maximum_size.width, m.size_policy.horizontal.spec_is_expanding())
            };
            (if mh > h {
                mh
            } else {
                h
            }, if mlo > lo {
                mlo
            } else {
                lo
            }, if mhi < hi {
                mhi
            } else {
                hi
            }, e || exp)
        } else {
            (h, lo, hi, e)
        }
    }
}

/// How grid line `line` takes part in sharing the space: its aggregate hint
/// and bounds, `Expanding` when an item expands and `Preferred` otherwise, and
/// the line's stretch (zero when none was set).
pub open spec fn line_item(v: GridLayoutView, ms: Seq<ItemMetrics>, rows: bool, line: int) -> SpaceItem {
    let (h, lo, hi, e) = line_agg(v.items, ms, rows, line, v.items.len() as int);
    let stretches = if rows {
        v.row_stretches
    } else {
        v.col_stretches
    };
    (h, lo, hi, if e {
        Policy::Expanding
    } else {
        Policy::Preferred
    }, if line < stretches.len() {
        stretches[line]
    } else {
        0
    })
}

/// The grid lines (rows or columns) as they share the space.
pub open spec fn line_items(v: GridLayoutView, ms: Seq<ItemMetrics>, rows: bool) -> Seq<SpaceItem> {
    let n = if rows {
        grid_rows(v.items)
    } else {
        grid_cols(v.items)
    };
    Seq::new(n as nat, |i: int| line_item(v, ms, rows, i))
}

/// Spacing between `n` lines, all together.
pub open spec fn total_gaps(n: int, spacing: int) -> int {
    if n > 1 {
        (n - 1) * spacing
    } else {
        0
    }
}

/// The space the columns share.
pub open spec fn grid_net_w(v: GridLayoutView) -> int {
    let w = inner_w(v.geometry, v.margins) - total_gaps(grid_cols(v.items), v.h_spacing as int);
    if w > 0 {
        w
    } else {
        0
    }
}

/// The space the rows share.
pub open spec fn grid_net_h(v: GridLayoutView) -> int {
    let h = inner_h(v.geometry, v.margins) - total_gaps(grid_rows(v.items), v.v_spacing as int);
    if h > 0 {
        h
    } else {
        0
    }
}

/// The column widths.
pub open spec fn grid_widths(v: GridLayoutView, ms: Seq<ItemMetrics>) -> Seq<int> {
    distribution(line_items(v, ms, false), grid_net_w(v))
}

/// The row heights.
pub open spec fn grid_heights(v: GridLayoutView, ms: Seq<ItemMetrics>) -> Seq<int> {
    distribution(line_items(v, ms, true), grid_net_h(v))
}

/// One past the last line an item from `first` spanning `span` lines covers
/// among `n` lines.
pub open spec fn span_end(first: int, span: int, n: int) -> int {
    if first + span < n {
        first + span
    } else {
        n
    }
}

/// Sum of `s[a..b]`.
pub open spec fn span_sum(s: Seq<int>, a: int, b: int) -> int
    decreases b - a,
{
    if b <= a {
        0
    } else {
        span_sum(s, a, b - 1) + s[b - 1]
    }
}

/// The extent of an item spanning `span` lines from `first` (the lines past
/// the last are ignored), with the spacing between its lines.
pub open spec fn spanned(sizes: Seq<int>, first: int, span: int, spacing: int) -> int {
    span_sum(sizes, first, span_end(first, span, sizes.len() as int)) + (if span > 1 {
        (span - 1) * spacing
    } else {
        0
    })
}

/// The geometry of item `k`: from its first cell over its spanned cells.
pub open spec fn grid_rect(v: GridLayoutView, ms: Seq<ItemMetrics>, k: int) -> Rect {
    let it = v.items[k];
    let ws = grid_widths(v, ms);
    let hs = grid_heights(v, ms);
    Rect {
        x: running(inner_x(v.geometry, v.margins), ws, v.h_spacing as int, it.column as int) as i32,
        y: running(inner_y(v.geometry, v.margins), hs, v.v_spacing as int, it.row as int) as i32,
        width: spanned(ws, it.column as int, it.col_span as int, v.h_spacing as int) as i32,
        height: spanned(hs, it.row as int, it.row_span as int, v.v_spacing as int) as i32,
    }
}

/// Where the layout puts its items (`QGridLayout::setGeometry`): nothing
/// while the grid has no row or no column.
pub open spec fn grid_rects(v: GridLayoutView, ms: Seq<ItemMetrics>) -> Seq<Rect> {
    if grid_rows(v.items) == 0 || grid_cols(v.items) == 0 {
        Seq::empty()
    } else {
        Seq::new(v.items.len(), |k: int| grid_rect(v, ms, k))
    }
}

/// Every item's extent fits in `usize`.
pub open spec fn extents_fit(items: Seq<GridItem>) -> bool {
    forall|k: int|
        0 <= k < items.len() ==> {
            let it = #[trigger] items[k];
            &&& it.row + it.row_span <= usize::MAX
            &&& it.column + it.col_span <= usize::MAX
        }
}

/// Every item spans at least one line and its extent fits in `usize`.
pub open spec fn grid_wf(v: GridLayoutView) -> bool {
    &&& extents_fit(v.items)
    &&& forall|k: int|
        0 <= k < v.items.len() ==> (#[trigger] v.items[k]).row_span >= 1 && v.items[k].col_span >= 1
}

/// The inputs on which laying out the grid stays within `i32` arithmetic and
/// every line's bounds are ordered.
pub open spec fn grid_fits(v: GridLayoutView, ms: Seq<ItemMetrics>) -> bool {
    let g = v.geometry;
    let m = v.margins;
    let rows = grid_rows(v.items);
    let cols = grid_cols(v.items);
    let ws = grid_widths(v, ms);
    let hs = grid_heights(v, ms);
    &&& grid_wf(v)
    &&& ms.len() == v.items.len()
    &&& rows <= i32::MAX && cols <= i32::MAX
    &&& is_i32(g.x + m.left) && is_i32(g.y + m.top)
    &&& is_i32(g.width - m.left) && is_i32(g.width - m.left - m.right)
    &&& is_i32(g.height - m.top) && is_i32(g.height - m.top - m.bottom)
    &&& is_i32(total_gaps(cols, v.h_spacing as int))
    &&& is_i32(total_gaps(rows, v.v_spacing as int))
    &&& is_i32(inner_w(g, m) - total_gaps(cols, v.h_spacing as int))
    &&& is_i32(inner_h(g, m) - total_gaps(rows, v.v_spacing as int))
    &&& bounds_ordered(line_items(v, ms, false))
    &&& bounds_ordered(line_items(v, ms, true))
    &&& stretch_sum(line_items(v, ms, false)) <= u32::MAX
    &&& stretch_sum(line_items(v, ms, true)) <= u32::MAX
    &&& forall|c: int| 0 <= c < cols ==> is_i32(#[trigger] ws[c] + v.h_spacing)
    &&& forall|r: int| 0 <= r < rows ==> is_i32(#[trigger] hs[r] + v.v_spacing)
    &&& forall|c: int|
        0 <= c <= cols ==> is_i32(#[trigger] running(inner_x(g, m), ws, v.h_spacing as int, c))
    &&& forall|r: int|
        0 <= r <= rows ==> is_i32(#[trigger] running(inner_y(g, m), hs, v.v_spacing as int, r))
    &&& forall|k: int, e: int|
        0 <= k < v.items.len() && v.items[k].column <= e <= span_end(
            v.items[k].column as int,
            v.items[k].col_span as int,
            cols,
        ) ==> is_i32(#[trigger] span_sum(ws, v.items[k].column as int, e))
    &&& forall|k: int, e: int|
        0 <= k < v.items.len() && v.items[k].row <= e <= span_end(
            v.items[k].row as int,
            v.items[k].row_span as int,
            rows,
        ) ==> is_i32(#[trigger] span_sum(hs, v.items[k].row as int, e))
    &&& forall|k: int|
        0 <= k < v.items.len() ==> {
            let it = #[trigger] v.items[k];
            &&& it.col_span - 1 <= i32::MAX
            &&& it.row_span - 1 <= i32::MAX
            &&& is_i32((it.col_span - 1) * v.h_spacing)
            &&& is_i32((it.row_span - 1) * v.v_spacing)
            &&& is_i32(spanned(ws, it.column as int, it.col_span as int, v.h_spacing as int))
            &&& is_i32(spanned(hs, it.row as int, it.row_span as int, v.v_spacing as int))
        }
}

/// The hint of each grid line: the largest hint of the items occupying it alone.
pub open spec fn line_hints(v: GridLayoutView, ms: Seq<ItemMetrics>, rows: bool) -> Seq<int> {
    line_items(v, ms, rows).map_values(|it: SpaceItem| it.0 as int)
}

/// The grid's preferred extent (`QGridLayout::sizeHint`): the line hints, the
/// spacing between lines and the margins.
pub open spec fn grid_size_hint(v: GridLayoutView, ms: Seq<ItemMetrics>) -> (int, int) {
    let m = v.margins;
    let rows = grid_rows(v.items);
    let cols = grid_cols(v.items);
    if rows == 0 || cols == 0 {
        (m.left + m.right, m.top + m.bottom)
    } else {
        (
            sum(line_hints(v, ms, false)) + total_gaps(cols, v.h_spacing as int) + m.left + m.right,
            sum(line_hints(v, ms, true)) + total_gaps(rows, v.v_spacing as int) + m.top + m.bottom,
        )
    }
}

/// The inputs on which the grid's size hint stays within `i32` arithmetic.
pub open spec fn grid_hint_fits(v: GridLayoutView, ms: Seq<ItemMetrics>) -> bool {
    let m = v.margins;
    let rows = grid_rows(v.items);
    let cols = grid_cols(v.items);
    let wh = line_hints(v, ms, false);
    let hh = line_hints(v, ms, true);
    &&& grid_wf(v)
    &&& ms.len() == v.items.len()
    &&& rows <= i32::MAX && cols <= i32::MAX
    &&& is_i32(m.left + m.right) && is_i32(m.top + m.bottom)
    &&& forall|k: int| 0 <= k <= cols ==> is_i32(#[trigger] sum(wh.subrange(0, k)))
    &&& forall|k: int| 0 <= k <= rows ==> is_i32(#[trigger] sum(hh.subrange(0, k)))
    &&& is_i32(total_gaps(cols, v.h_spacing as int)) && is_i32(total_gaps(rows, v.v_spacing as int))
    &&& is_i32(sum(wh) + total_gaps(cols, v.h_spacing as int))
    &&& is_i32(sum(wh) + total_gaps(cols, v.h_spacing as int) + m.left)
    &&& is_i32(sum(wh) + total_gaps(cols, v.h_spacing as int) + m.left + m.right)
    &&& is_i32(sum(hh) + total_gaps(rows, v.v_spacing as int))
    &&& is_i32(sum(hh) + total_gaps(rows, v.v_spacing as int) + m.top)
    &&& is_i32(sum(hh) + total_gaps(rows, v.v_spacing as int) + m.top + m.bottom)
}

/// Sum of the line hints, computed.
fn hint_sum(v: &GridLayout, ms: &[ItemMetrics], rows: bool, n: usize) -> (r: i32)
    requires
        grid_hint_fits(v@, ms@),
        n == if rows {
            grid_rows(v@.items)
        } else {
            grid_cols(v@.items)
        },
    ensures
        r == sum(line_hints(v@, ms@, rows)),
{
    let ghost hs = line_hints(v@, ms@, rows);
    let mut total: i32 = 0;
    let mut i: usize = 0;
    while i < n
        invariant
            0 <= i <= n == hs.len(),
            grid_hint_fits(v@, ms@),
            hs == line_hints(v@, ms@, rows),
            n == if rows {
                grid_rows(v@.items)
            } else {
                grid_cols(v@.items)
            },
            total == sum(hs.subrange(0, i as int)),
        decreases n - i,
    {
        let it = line_item_exec(v, ms, rows, i);
        proof {
            assert(hs.subrange(0, i as int + 1).drop_last() =~= hs.subrange(0, i as int));
            assert(is_i32(sum(hs.subrange(0, i as int + 1))));
        }
        total = total + it.0;
        i = i + 1;
    }
    assert(hs.subrange(0, i as int) =~= hs);
    total
}

/// Grid layout laying out widgets in a grid of rows and columns (`QGridLayout`).
pub struct GridLayout {
    geometry: Rect,
    margins: Margins,
    h_spacing: i32,
    v_spacing: i32,
    items: Vec<GridItem>,
    row_stretches: Vec<u32>,
    col_stretches: Vec<u32>,
}

impl View for GridLayout {
    type V = GridLayoutView;

    closed spec fn view(&self) -> GridLayoutView {
        GridLayoutView {
            geometry: self.geometry,
            margins: self.margins,
            h_spacing: self.h_spacing,
            v_spacing: self.v_spacing,
            items: self.items@,
            row_stretches: self.row_stretches@,
            col_stretches: self.col_stretches@,
        }
    }
}

/// `s` extended with zeros to length `n`, if shorter.
pub open spec fn padded(s: Seq<u32>, n: int) -> Seq<u32> {
    if s.len() >= n {
        s
    } else {
        s + Seq::new((n - s.len()) as nat, |i: int| 0u32)
    }
}

/// The line count the first `k` items reach, computed.
fn line_count(items: &Vec<GridItem>, rows: bool) -> (r: usize)
    requires
        extents_fit(items@),
    ensures
        r == if rows {
            grid_rows(items@)
        } else {
            grid_cols(items@)
        },
{
    let mut n: usize = 0;
    let mut k: usize = 0;
    while k < items.len()
        invariant
            0 <= k <= items@.len(),
            extents_fit(items@),
            n == if rows {
                grid_rows(items@.subrange(0, k as int))
            } else {
                grid_cols(items@.subrange(0, k as int))
            },
        decreases items@.len() - k,
    {
        proof {
            let s = items@.subrange(0, k as int + 1);
            assert(s.drop_last() =~= items@.subrange(0, k as int));
            assert(s.last() == items@[k as int]);
        }
        let it = items[k];
        assert(it == items@[k as int]);
        let e = if rows {
            it.row + it.row_span
        } else {
            it.column + it.col_span
        };
        if e > n {
            n = e;
        }
        k = k + 1;
    }
    assert(items@.subrange(0, k as int) =~= items@);
    n
}

/// How grid line `line` takes part in sharing the space, computed.
fn line_item_exec(v: &GridLayout, ms: &[ItemMetrics], rows: bool, line: usize) -> (r: SpaceItem)
    requires
        ms@.len() == v@.items.len(),
    ensures
        r == line_item(v@, ms@, rows, line as int),
{
    let mut h: i32 = 0;
    let mut lo: i32 = 0;
    let mut hi: i32 = GRID_MAX_EXTENT;
    let mut e = false;
    let mut k: usize = 0;
    while k < v.items.len()
        invariant
            0 <= k <= v@.items.len() == ms@.len(),
            (h, lo, hi, e) == line_agg(v@.items, ms@, rows, line as int, k as int),
        decreases v@.items.len() - k,
    {
        let it = v.items[k];
        let alone = if rows {
            it.row == line && it.row_span == 1
        } else {
            it.column == line && it.col_span == 1
        };
        if alone {
            let m = ms[k];
            let (mh, mlo, mhi, exp) = if rows {
                (m.size_hint.height, m.minimum_size.height, m.maximum_size.height, m.size_policy.vertical.is_expanding())
            } else {
                (m.size_hint.width, m.minimum_size.width, m.maximum_size.width, m.size_policy.horizontal.is_expanding())
            };
            if mh > h {
                h = mh;
            }
            if mlo > lo {
                lo = mlo;
            }
            if mhi < hi {
                hi = mhi;
            }
            e = e || exp;
        }
        k = k + 1;
    }
    let stretches = if rows {
        &v.row_stretches
    } else {
        &v.col_stretches
    };
    let stretch = if line < stretches.len() {
        stretches[line]
    } else {
        0
    };
    (h, lo, hi, if e {
        Policy::Expanding
    } else {
        Policy::Preferred
    }, stretch)
}

/// The grid lines as they share the space, computed.
fn line_items_exec(v: &GridLayout, ms: &[ItemMetrics], rows: bool, n: usize) -> (r: Vec<SpaceItem>)
    requires
        ms@.len() == v@.items.len(),
        n == if rows {
            grid_rows(v@.items)
        } else {
            grid_cols(v@.items)
        },
    ensures
        r@ == line_items(v@, ms@, rows),
{
    let mut out: Vec<SpaceItem> = Vec::new();
    let mut i: usize = 0;
    while i < n
        invariant
            0 <= i <= n,
            ms@.len() == v@.items.len(),
            n == if rows {
                grid_rows(v@.items)
            } else {
                grid_cols(v@.items)
            },
            out@ =~= line_items(v@, ms@, rows).subrange(0, i as int),
        decreases n - i,
    {
        out.push(line_item_exec(v, ms, rows, i));
        i = i + 1;
    }
    assert(out@ =~= line_items(v@, ms@, rows));
    out
}

/// The running offsets of `sizes` from `start`, one per size.
fn offsets(start: i32, sizes: &Vec<i32>, spacing: i32) -> (r: Vec<i32>)
    requires
        forall|c: int| 0 <= c < sizes@.len() ==> is_i32(#[trigger] sizes@[c] + spacing),
        forall|c: int|
            0 <= c <= sizes@.len() ==> is_i32(#[trigger] running(start as int, ints(sizes@), spacing as int, c)),
    ensures
        r@.len() == sizes@.len(),
        forall|c: int|
            0 <= c < sizes@.len() ==> r@[c] == running(start as int, ints(sizes@), spacing as int, c),
{
    let mut out: Vec<i32> = Vec::new();
    let mut cur = start;
    let mut c: usize = 0;
    while c < sizes.len()
        invariant
            0 <= c <= sizes@.len(),
            forall|j: int| 0 <= j < sizes@.len() ==> is_i32(#[trigger] sizes@[j] + spacing),
            forall|j: int|
                0 <= j <= sizes@.len() ==> is_i32(#[trigger] running(start as int, ints(sizes@), spacing as int, j)),
            cur == running(start as int, ints(sizes@), spacing as int, c as int),
            out@.len() == c,
            forall|j: int| 0 <= j < c ==> out@[j] == running(start as int, ints(sizes@), spacing as int, j),
        decreases sizes@.len() - c,
    {
        out.push(cur);
        assert(is_i32(sizes@[c as int] + spacing));
        assert(is_i32(running(start as int, ints(sizes@), spacing as int, c as int + 1)));
        cur = cur + (sizes[c] + spacing);
        c = c + 1;
    }
    out
}

/// The extent of an item spanning `span` lines from `first`, computed.
fn spanned_exec(sizes: &Vec<i32>, first: usize, span: usize, spacing: i32) -> (r: i32)
    requires
        first < sizes@.len(),
        span >= 1,
        first + span <= usize::MAX,
        span - 1 <= i32::MAX,
        is_i32((span - 1) * spacing),
        forall|e: int|
            first <= e <= span_end(first as int, span as int, sizes@.len() as int) ==> is_i32(
                #[trigger] span_sum(ints(sizes@), first as int, e),
            ),
        is_i32(spanned(ints(sizes@), first as int, span as int, spacing as int)),
    ensures
        r == spanned(ints(sizes@), first as int, span as int, spacing as int),
{
    let end = if first + span < sizes.len() {
        first + span
    } else {
        sizes.len()
    };
    let mut w: i32 = 0;
    let mut c: usize = first;
    while c < end
        invariant
            first <= c <= end <= sizes@.len(),
            end == span_end(first as int, span as int, sizes@.len() as int),
            forall|e: int|
                first <= e <= end ==> is_i32(#[trigger] span_sum(ints(sizes@), first as int, e)),
            w == span_sum(ints(sizes@), first as int, c as int),
        decreases end - c,
    {
        assert(is_i32(span_sum(ints(sizes@), first as int, c as int + 1)));
        w = w + sizes[c];
        c = c + 1;
    }
    let gaps = (span - 1) as i32;
    let extra = if gaps > 0 {
        gaps * spacing
    } else {
        0
    };
    w + extra
}

impl GridLayout {
    /// The invariant: every item spans at least one line and its extent fits.
    pub open spec fn wf(&self) -> bool {
        grid_wf(self@)
    }

    /// An empty grid at the origin without extent, without margins, with
    /// spacing 6 both ways and no stretch.
    pub fn new() -> (r: GridLayout)
        ensures
            r.wf(),
            r@ == (GridLayoutView {
                geometry: Rect { x: 0, y: 0, width: 0, height: 0 },
                margins: Margins { left: 0, top: 0, right: 0, bottom: 0 },
                h_spacing: 6,
                v_spacing: 6,
                items: Seq::empty(),
                row_stretches: Seq::empty(),
                col_stretches: Seq::empty(),
            }),
    {
        let r = GridLayout {
            geometry: Rect::new(0, 0, 0, 0),
            margins: Margins::new(0, 0, 0, 0),
            h_spacing: 6,
            v_spacing: 6,
            items: Vec::new(),
            row_stretches: Vec::new(),
            col_stretches: Vec::new(),
        };
        assert(r@.items =~= Seq::<GridItem>::empty());
        assert(r@.row_stretches =~= Seq::<u32>::empty());
        assert(r@.col_stretches =~= Seq::<u32>::empty());
        r
    }

    /// The items, in the order they were added.
    pub fn items(&self) -> (r: &[GridItem])
        ensures
            r@ == self@.items,
    {
        self.items.as_slice()
    }

    /// Puts `widget` in cell (`row`, `column`).
    pub fn add_widget(&mut self, widget: u64, row: usize, column: usize)
        requires
            old(self).wf(),
            row < usize::MAX,
            column < usize::MAX,
        ensures
            final(self).wf(),
            final(self)@ == (GridLayoutView {
                items: old(self)@.items.push(GridItem { widget, row, column, row_span: 1, col_span: 1 }),
                ..old(self)@
            }),
    {
        self.add_widget_with_span(widget, row, column, 1, 1);
    }

    /// Puts `widget` in the cells from (`row`, `column`) spanning `row_span`
    /// rows and `col_span` columns (at least one each).
    pub fn add_widget_with_span(&mut self, widget: u64, row: usize, column: usize, row_span: usize, col_span: usize)
        requires
            old(self).wf(),
            row + (if row_span >= 1 { row_span } else { 1 }) <= usize::MAX,
            column + (if col_span >= 1 { col_span } else { 1 }) <= usize::MAX,
        ensures
            final(self).wf(),
            final(self)@ == (GridLayoutView {
                items: old(self)@.items.push(
                    GridItem {
                        widget,
                        row,
                        column,
                        row_span: if row_span >= 1 {
                            row_span
                        } else {
                            1
                        },
                        col_span: if col_span >= 1 {
                            col_span
                        } else {
                            1
                        },
                    },
                ),
                ..old(self)@
            }),
    {
        let it = GridItem {
            widget,
            row,
            column,
            row_span: if row_span >= 1 {
                row_span
            } else {
                1
            },
            col_span: if col_span >= 1 {
                col_span
            } else {
                1
            },
        };
        self.items.push(it);
        assert(forall|k: int| 0 <= k < old(self)@.items.len() ==> self@.items[k] == old(self)@.items[k]);
    }

    /// Number of rows: one past the last row an item reaches.
    pub fn row_count(&self) -> (r: usize)
        requires
            self.wf(),
        ensures
            r == grid_rows(self@.items),
    {
        line_count(&self.items, true)
    }

    /// Number of columns: one past the last column an item reaches.
    pub fn column_count(&self) -> (r: usize)
        requires
            self.wf(),
        ensures
            r == grid_cols(self@.items),
    {
        line_count(&self.items, false)
    }

    /// Appends `widget` in a new row, in the first column.
    pub fn append_widget(&mut self, widget: u64)
        requires
            old(self).wf(),
            grid_rows(old(self)@.items) < usize::MAX,
        ensures
            final(self).wf(),
            final(self)@ == (GridLayoutView {
                items: old(self)@.items.push(
                    GridItem { widget, row: grid_rows(old(self)@.items) as usize, column: 0, row_span: 1, col_span: 1 },
                ),
                ..old(self)@
            }),
    {
        let r = self.row_count();
        self.add_widget(widget, r, 0);
    }

    /// Sets the stretch of `row`, extending the row stretches with zeros as needed.
    pub fn set_row_stretch(&mut self, row: usize, stretch: u32)
        requires
            row < usize::MAX,
        ensures
            final(self)@ == (GridLayoutView {
                row_stretches: padded(old(self)@.row_stretches, row + 1).update(row as int, stretch),
                ..old(self)@
            }),
    {
        let ghost pre = self.row_stretches@;
        while self.row_stretches.len() <= row
            invariant
                self.row_stretches@.len() >= pre.len(),
                pre.len() <= row + 1 ==> self.row_stretches@.len() <= row + 1,
                pre.len() > row + 1 ==> self.row_stretches@ == pre,
                self.row_stretches@ =~= padded(pre, self.row_stretches@.len() as int),
                self.geometry == old(self).geometry,
                self.margins == old(self).margins,
                self.h_spacing == old(self).h_spacing,
                self.v_spacing == old(self).v_spacing,
                self.items@ == old(self).items@,
                self.col_stretches@ == old(self).col_stretches@,
                pre == old(self).row_stretches@,
            decreases row + 1 - self.row_stretches@.len(),
        {
            self.row_stretches.push(0);
        }
        assert(self.row_stretches@ =~= padded(pre, row + 1));
        self.row_stretches.set(row, stretch);
    }

    /// Sets the stretch of `column`, extending the column stretches with zeros as needed.
    pub fn set_column_stretch(&mut self, column: usize, stretch: u32)
        requires
            column < usize::MAX,
        ensures
            final(self)@ == (GridLayoutView {
                col_stretches: padded(old(self)@.col_stretches, column + 1).update(column as int, stretch),
                ..old(self)@
            }),
    {
        let ghost pre = self.col_stretches@;
        while self.col_stretches.len() <= column
            invariant
                self.col_stretches@.len() >= pre.len(),
                pre.len() <= column + 1 ==> self.col_stretches@.len() <= column + 1,
                pre.len() > column + 1 ==> self.col_stretches@ == pre,
                self.col_stretches@ =~= padded(pre, self.col_stretches@.len() as int),
                self.geometry == old(self).geometry,
                self.margins == old(self).margins,
                self.h_spacing == old(self).h_spacing,
                self.v_spacing == old(self).v_spacing,
                self.items@ == old(self).items@,
                self.row_stretches@ == old(self).row_stretches@,
                pre == old(self).col_stretches@,
            decreases column + 1 - self.col_stretches@.len(),
        {
            self.col_stretches.push(0);
        }
        assert(self.col_stretches@ =~= padded(pre, column + 1));
        self.col_stretches.set(column, stretch);
    }

    pub fn set_horizontal_spacing(&mut self, spacing: i32)
        ensures
            final(self)@ == (GridLayoutView { h_spacing: spacing, ..old(self)@ }),
    {
        self.h_spacing = spacing;
    }

    pub fn set_vertical_spacing(&mut self, spacing: i32)
        ensures
            final(self)@ == (GridLayoutView { v_spacing: spacing, ..old(self)@ }),
    {
        self.v_spacing = spacing;
    }

    /// Sets the spacing both ways.
    pub fn set_spacing(&mut self, spacing: i32)
        ensures
            final(self)@ == (GridLayoutView { h_spacing: spacing, v_spacing: spacing, ..old(self)@ }),
    {
        self.h_spacing = spacing;
        self.v_spacing = spacing;
    }

    /// The horizontal spacing.
    pub fn spacing(&self) -> (r: i32)
        ensures
            r == self@.h_spacing,
    {
        self.h_spacing
    }

    pub fn geometry(&self) -> (r: Rect)
        ensures
            r == self@.geometry,
    {
        self.geometry
    }

    pub fn set_geometry(&mut self, rect: Rect)
        ensures
            final(self)@ == (GridLayoutView { geometry: rect, ..old(self)@ }),
    {
        self.geometry = rect;
    }

    pub fn margins(&self) -> (r: Margins)
        ensures
            r == self@.margins,
    {
        self.margins
    }

    pub fn set_margins(&mut self, margins: Margins)
        ensures
            final(self)@ == (GridLayoutView { margins, ..old(self)@ }),
    {
        self.margins = margins;
    }

    /// The grid's preferred extent, given what each item's widget reports:
    /// [`grid_size_hint`].
    pub fn size_hint(&self, metrics: &[ItemMetrics]) -> (r: Size)
        requires
            grid_hint_fits(self@, metrics@),
        ensures
            r.width == grid_size_hint(self@, metrics@).0,
            r.height == grid_size_hint(self@, metrics@).1,
    {
        let m = self.margins;
        let rows = self.row_count();
        let cols = self.column_count();
        if rows == 0 || cols == 0 {
            return Size::new(m.left + m.right, m.top + m.bottom);
        }
        let w = hint_sum(self, metrics, false, cols);
        let h = hint_sum(self, metrics, true, rows);
        let col_gaps = (cols - 1) as i32;
        let row_gaps = (rows - 1) as i32;
        let gw = if col_gaps > 0 {
            col_gaps * self.h_spacing
        } else {
            0
        };
        let gh = if row_gaps > 0 {
            row_gaps * self.v_spacing
        } else {
            0
        };
        assert(gw == total_gaps(cols as int, self@.h_spacing as int));
        assert(gh == total_gaps(rows as int, self@.v_spacing as int));
        Size::new(w + gw + m.left + m.right, h + gh + m.top + m.bottom)
    }

    /// Where the items go, given what each item's widget reports
    /// (`metrics[k]` for item `k`): [`grid_rects`].
    pub fn item_geometries(&self, metrics: &[ItemMetrics]) -> (r: Vec<Rect>)
        requires
            grid_fits(self@, metrics@),
        ensures
            r@ == grid_rects(self@, metrics@),
    {
        let rows = self.row_count();
        let cols = self.column_count();
        let mut out: Vec<Rect> = Vec::new();
        if rows == 0 || cols == 0 {
            assert(out@ =~= grid_rects(self@, metrics@));
            return out;
        }
        let g = self.geometry;
        let m = self.margins;
        let avail_x = g.x + m.left;
        let avail_y = g.y + m.top;
        let w0 = g.width - m.left - m.right;
        let avail_w = if w0 > 0 {
            w0
        } else {
            0
        };
        let h0 = g.height - m.top - m.bottom;
        let avail_h = if h0 > 0 {
            h0
        } else {
            0
        };
        let col_gaps = (cols - 1) as i32;
        let row_gaps = (rows - 1) as i32;
        let total_h_spacing = if col_gaps > 0 {
            col_gaps * self.h_spacing
        } else {
            0
        };
        let total_v_spacing = if row_gaps > 0 {
            row_gaps * self.v_spacing
        } else {
            0
        };
        assert(total_h_spacing == total_gaps(cols as int, self@.h_spacing as int));
        assert(total_v_spacing == total_gaps(rows as int, self@.v_spacing as int));
        let nw = avail_w - total_h_spacing;
        let net_w = if nw > 0 {
            nw
        } else {
            0
        };
        let nh = avail_h - total_v_spacing;
        let net_h = if nh > 0 {
            nh
        } else {
            0
        };
        let col_specs = line_items_exec(self, metrics, false, cols);
        let widths = distribute_1d_space(col_specs.as_slice(), net_w);
        let row_specs = line_items_exec(self, metrics, true, rows);
        let heights = distribute_1d_space(row_specs.as_slice(), net_h);
        let ghost ws = grid_widths(self@, metrics@);
        let ghost hs = grid_heights(self@, metrics@);
        assert(ints(widths@) == ws);
        assert(ints(heights@) == hs);
        assert forall|c: int| 0 <= c < widths@.len() implies is_i32(#[trigger] widths@[c] + self.h_spacing) by {
            assert(ws[c] == widths@[c]);
        }
        assert forall|r: int| 0 <= r < heights@.len() implies is_i32(#[trigger] heights@[r] + self.v_spacing) by {
            assert(hs[r] == heights@[r]);
        }
        assert forall|c: int| 0 <= c <= widths@.len() implies is_i32(
            #[trigger] running(avail_x as int, ints(widths@), self.h_spacing as int, c),
        ) by {
            assert(is_i32(running(inner_x(self@.geometry, self@.margins), grid_widths(self@, metrics@), self@.h_spacing as int, c)));
        }
        assert forall|r: int| 0 <= r <= heights@.len() implies is_i32(
            #[trigger] running(avail_y as int, ints(heights@), self.v_spacing as int, r),
        ) by {
            assert(is_i32(running(inner_y(self@.geometry, self@.margins), grid_heights(self@, metrics@), self@.v_spacing as int, r)));
        }
        let col_x = offsets(avail_x, &widths, self.h_spacing);
        let row_y = offsets(avail_y, &heights, self.v_spacing);
        let n = self.items.len();
        let mut k: usize = 0;
        while k < n
            invariant
                0 <= k <= n == self@.items.len() == metrics@.len(),
                grid_fits(self@, metrics@),
                rows == grid_rows(self@.items),
                cols == grid_cols(self@.items),
                rows > 0 && cols > 0,
                ints(widths@) == ws,
                ints(heights@) == hs,
                ws == grid_widths(self@, metrics@),
                hs == grid_heights(self@, metrics@),
                widths@.len() == cols,
                heights@.len() == rows,
                avail_x == inner_x(self@.geometry, self@.margins),
                avail_y == inner_y(self@.geometry, self@.margins),
                col_x@.len() == cols,
                row_y@.len() == rows,
                forall|c: int| 0 <= c < cols ==> col_x@[c] == running(avail_x as int, ws, self@.h_spacing as int, c),
                forall|r: int| 0 <= r < rows ==> row_y@[r] == running(avail_y as int, hs, self@.v_spacing as int, r),
                out@ =~= grid_rects(self@, metrics@).subrange(0, k as int),
            decreases n - k,
        {
            let it = self.items[k];
            proof {
                lemma_item_within(self@.items, k as int);
            }
            let w = spanned_exec(&widths, it.column, it.col_span, self.h_spacing);
            let h = spanned_exec(&heights, it.row, it.row_span, self.v_spacing);
            let rect = Rect::new(col_x[it.column], row_y[it.row], w, h);
            assert(rect == grid_rect(self@, metrics@, k as int));
            out.push(rect);
            k = k + 1;
        }
        assert(out@ =~= grid_rects(self@, metrics@));
        out
    }
}

/// Every item starts within the lines the items reach.
proof fn lemma_item_within(items: Seq<GridItem>, k: int)
    requires
        0 <= k < items.len(),
        forall|j: int| 0 <= j < items.len() ==> (#[trigger] items[j]).row_span >= 1 && items[j].col_span >= 1,
    ensures
        items[k].row + items[k].row_span <= grid_rows(items),
        items[k].column + items[k].col_span <= grid_cols(items),
    decreases items.len(),
{
    if k < items.len() - 1 {
        let t = items.drop_last();
        assert(t[k] == items[k]);
        assert forall|j: int| 0 <= j < t.len() implies (#[trigger] t[j]).row_span >= 1 && t[j].col_span >= 1 by {
            assert(t[j] == items[j]);
        }
        lemma_item_within(t, k);
    }
}

} // verus!
