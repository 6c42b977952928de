//! Item views over a model (`QAbstractItemView` and the list, table, tree and
//! column views): which item lies under a point, the first visible row, the
//! current item and the selection, as moved by keys, clicks and the wheel, and
//! the steps that paint the view.
//!
//! The model stays outside: each operation that reads it is handed its
//! [`ModelShape`], the number of visible rows (in a tree, the expanded rows in
//! display order) and columns under the root. In tree mode an item is named
//! by its display row.

use vstd::prelude::*;

use crate::geometry::{Point, Rect, Size};
use crate::lcd_number::div_toward_zero;
use crate::input_keys::{
    has_ctrl, is_down, is_end, is_enter, is_home, is_up, spec_has_ctrl, spec_is_down, spec_is_end,
    spec_is_enter, spec_is_home, spec_is_up,
};

verus! {

/// How an item view presents its model.
#[derive(Debug, Clone, Copy, PartialEq, Eq, Structural)]
pub enum ViewMode {
    List,
    Table,
    Tree,
    Column,
}

impl Default for ViewMode {
    fn default() -> (r: ViewMode)
        ensures
            r == ViewMode::List,
    {
        ViewMode::List
    }
}

/// Height of a row until one is set.
pub const DEFAULT_ROW_HEIGHT: i32 = 24;

/// Height of the column header strip of a table.
pub const HEADER_HEIGHT: i32 = 24;

/// An item of the model: its row and column under the root (in a tree, its
/// display row).
#[derive(Debug, Clone, Copy, PartialEq, Eq, Structural)]
pub struct ItemIndex {
    pub row: i32,
    pub column: i32,
}

impl ItemIndex {
    /// The item at `row`, `column`.
    pub fn new(row: i32, column: i32) -> (r: Self)
        ensures
            r == (ItemIndex { row, column }),
    {
        ItemIndex { row, column }
    }

    /// An index names an item when neither coordinate is negative.
    pub open spec fn spec_is_valid(&self) -> bool {
        self.row >= 0 && self.column >= 0
    }

    /// Whether the index names an item.
    pub fn is_valid(&self) -> (r: bool)
        ensures
            r == self.spec_is_valid(),
    {
        self.row >= 0 && self.column >= 0
    }
}

/// What a view reads from its model: visible rows and columns under the root.
#[derive(Debug, Clone, Copy, PartialEq, Eq, Structural)]
pub struct ModelShape {
    pub rows: i32,
    pub columns: i32,
}

impl ModelShape {
    /// A model of `rows` rows and `columns` columns.
    pub fn new(rows: i32, columns: i32) -> (r: Self)
        ensures
            r == (ModelShape { rows, columns }),
    {
        ModelShape { rows, columns }
    }

    /// Counts are never negative.
    pub open spec fn wf(&self) -> bool {
        self.rows >= 0 && self.columns >= 0
    }
}

/// The selection after removing every occurrence of `x`, order kept.
pub open spec fn without_item(s: Seq<ItemIndex>, x: ItemIndex) -> Seq<ItemIndex>
    decreases s.len(),
{
    if s.len() == 0 {
        s
    } else {
        let rest = without_item(s.drop_last(), x);
        if s.last() != x {
            rest.push(s.last())
        } else {
            rest
        }
    }
}

proof fn lemma_without_item_push(s: Seq<ItemIndex>, a: ItemIndex, x: ItemIndex)
    ensures
        without_item(s.push(a), x) == if a != x {
            without_item(s, x).push(a)
        } else {
            without_item(s, x)
        },
{
    assert(s.push(a).drop_last() =~= s);
}

/// Removing `x` keeps exactly the other items.
pub proof fn lemma_without_item_contains(s: Seq<ItemIndex>, x: ItemIndex)
    ensures
        forall|a: ItemIndex| #[trigger] without_item(s, x).contains(a) <==> (s.contains(a) && a != x),
    decreases s.len(),
{
    if s.len() > 0 {
        let init = s.drop_last();
        lemma_without_item_contains(init, x);
        assert(s =~= init.push(s.last()));
        let r = without_item(init, x);
        assert forall|a: ItemIndex| #[trigger]
            without_item(s, x).contains(a) <==> (s.contains(a) && a != x) by {
            assert(s.contains(a) <==> (init.contains(a) || a == s.last())) by {
                if s.contains(a) {
                    let i = choose|i: int| 0 <= i < s.len() && s[i] == a;
                    if i < s.len() - 1 {
                        assert(init[i] == a);
                    }
                }
                if init.contains(a) {
                    let i = choose|i: int| 0 <= i < init.len() && init[i] == a;
                    assert(s[i] == a);
                }
                if a == s.last() {
                    assert(s[s.len() - 1] == a);
                }
            }
            if s.last() != x {
                let r2 = r.push(s.last());
                assert(r2.contains(a) <==> (r.contains(a) || a == s.last())) by {
                    if r2.contains(a) {
                        let j = choose|j: int| 0 <= j < r2.len() && r2[j] == a;
                        if j < r.len() {
                            assert(r[j] == a);
                        }
                    }
                    if r.contains(a) {
                        let j = choose|j: int| 0 <= j < r.len() && r[j] == a;
                        assert(r2[j] == a);
                    }
                    if a == s.last() {
                        assert(r2[r.len() as int] == a);
                    }
                }
            }
        }
    }
}

/// The selection after toggling `x`: removed when selected, else added.
pub open spec fn toggled(s: Seq<ItemIndex>, x: ItemIndex) -> Seq<ItemIndex> {
    if s.contains(x) {
        without_item(s, x)
    } else {
        s.push(x)
    }
}

/// An item view as plain values.
pub struct ItemViewState {
    pub mode: ViewMode,
    pub row_height: int,
    pub vertical_offset: int,
    pub geometry: Rect,
    pub enabled: bool,
    pub has_focus: bool,
    pub current: Option<ItemIndex>,
    pub selection: Seq<ItemIndex>,
}

/// Rows are at least a pixel high, the first visible row is not negative, and
/// the current item, when there is one, names an item.
pub open spec fn item_view_wf(s: ItemViewState) -> bool {
    &&& 1 <= s.row_height <= i32::MAX
    &&& 0 <= s.vertical_offset <= i32::MAX
    &&& (s.current matches Some(c) ==> c.spec_is_valid())
}

/// Height above the first row: the header strip of a table, else nothing.
pub open spec fn header_offset(mode: ViewMode) -> int {
    if mode == ViewMode::Table {
        HEADER_HEIGHT as int
    } else {
        0
    }
}

/// Rows that fit below the header, at least one.
pub open spec fn page_rows_of(s: ItemViewState) -> int {
    let avail = s.geometry.height - header_offset(s.mode);
    let avail = if avail > 0 {
        avail
    } else {
        0
    };
    if avail / s.row_height > 1 {
        avail / s.row_height
    } else {
        1
    }
}

/// The largest first visible row for `rows` rows: the last page starts there.
pub open spec fn max_offset_of(s: ItemViewState, rows: int) -> int {
    if rows - page_rows_of(s) > 0 {
        rows - page_rows_of(s)
    } else {
        0
    }
}

/// `v` brought into `[lo, hi]` (`lo <= hi`).
pub open spec fn clamp_int(v: int, lo: int, hi: int) -> int {
    if v < lo {
        lo
    } else if v > hi {
        hi
    } else {
        v
    }
}

/// Whether `pos` lies in the item area: inside the view and below the header.
pub open spec fn in_item_area(s: ItemViewState, pos: Point) -> bool {
    &&& 0 <= pos.x < s.geometry.width
    &&& header_offset(s.mode) <= pos.y < s.geometry.height
}

/// The item under `pos`. A row is found from the height and the first visible
/// row; a table with several columns divides its width evenly among them,
/// other modes answer with the first column; a row past the model is none.
pub open spec fn spec_index_at(s: ItemViewState, shape: ModelShape, pos: Point) -> Option<ItemIndex> {
    if !in_item_area(s, pos) {
        None
    } else {
        let visual_row = (pos.y - header_offset(s.mode)) / s.row_height + s.vertical_offset;
        let column: int = if s.mode == ViewMode::Table && shape.columns > 1 {
            let cw = if (s.geometry.width as int) / (shape.columns as int) > 1 {
                (s.geometry.width as int) / (shape.columns as int)
            } else {
                1
            };
            if (pos.x as int) / cw < shape.columns - 1 {
                (pos.x as int) / cw
            } else {
                shape.columns - 1
            }
        } else {
            0
        };
        if visual_row < shape.rows {
            Some(ItemIndex { row: visual_row as i32, column: column as i32 })
        } else {
            None
        }
    }
}


/// Where the view keeps item `idx`: its row, or in a tree its display row
/// when the tree shows it.
pub open spec fn visual_row_of(s: ItemViewState, shape: ModelShape, idx: ItemIndex) -> Option<int> {
    if s.mode == ViewMode::Tree {
        if idx.column == 0 && 0 <= idx.row < shape.rows {
            Some(idx.row as int)
        } else {
            None
        }
    } else {
        Some(idx.row as int)
    }
}

/// The first visible row after scrolling item `idx` into view: up to it when
/// above the page, so that it is the last row when below, then kept within
/// the rows there are.
pub open spec fn spec_ensure_visible(s: ItemViewState, shape: ModelShape, idx: ItemIndex) -> ItemViewState {
    if !idx.spec_is_valid() {
        s
    } else {
        match visual_row_of(s, shape, idx) {
            None => s,
            Some(row) => {
                let page = page_rows_of(s);
                let off = if row < s.vertical_offset {
                    row
                } else if row >= s.vertical_offset + page {
                    row - page + 1
                } else {
                    s.vertical_offset
                };
                ItemViewState {
                    vertical_offset: clamp_int(off, 0, max_offset_of(s, shape.rows as int)),
                    ..s
                }
            },
        }
    }
}

/// `setCurrentIndex`: `idx` becomes current and alone selected (an index
/// naming no item clears both), then is scrolled into view.
pub open spec fn spec_set_current(s: ItemViewState, shape: ModelShape, idx: ItemIndex) -> ItemViewState {
    let picked = if idx.spec_is_valid() {
        ItemViewState { current: Some(idx), selection: seq![idx], ..s }
    } else {
        ItemViewState { current: None, selection: Seq::empty(), ..s }
    };
    spec_ensure_visible(picked, shape, idx)
}

/// The item a move by `delta` rows lands on: from the current row (the top
/// without one) clamped to the rows there are, in the first column; none in
/// an empty model or one without columns.
pub open spec fn spec_move_target(s: ItemViewState, shape: ModelShape, delta: int) -> Option<ItemIndex> {
    let rows = shape.rows as int;
    if rows <= 0 {
        None
    } else {
        let row: int = match s.current {
            Some(c) => if s.mode == ViewMode::Tree {
                if c.column == 0 && c.row < rows {
                    c.row as int
                } else {
                    0
                }
            } else {
                c.row as int
            },
            None => 0,
        };
        let target = clamp_int(row + delta, 0, rows - 1);
        if s.mode == ViewMode::Tree || shape.columns >= 1 {
            Some(ItemIndex { row: target as i32, column: 0 })
        } else {
            None
        }
    }
}

/// The view after moving the current item by `delta` rows.
pub open spec fn spec_move_current(s: ItemViewState, shape: ModelShape, delta: int) -> ItemViewState {
    match spec_move_target(s, shape, delta) {
        Some(t) => spec_set_current(s, shape, t),
        None => s,
    }
}

/// A key: Up and Down move by one row, Home and End to the first and last
/// row; Enter activates the current item (the second value).
pub open spec fn spec_key(s: ItemViewState, shape: ModelShape, key: u32) -> (ItemViewState, Option<ItemIndex>) {
    let rows = shape.rows as int;
    if spec_is_up(key) {
        (spec_move_current(s, shape, -1), None)
    } else if spec_is_down(key) {
        (spec_move_current(s, shape, 1), None)
    } else if spec_is_home(key) {
        (spec_move_current(s, shape, -rows), None)
    } else if spec_is_end(key) {
        (spec_move_current(s, shape, rows), None)
    } else if spec_is_enter(key) {
        (s, s.current)
    } else {
        (s, None)
    }
}

/// A press: with the left button on an item of an enabled view the item
/// becomes current and is selected alone, or with Ctrl toggled in the
/// selection; the view takes focus, and the item is reported as clicked.
pub open spec fn spec_mouse_press(
    s: ItemViewState,
    shape: ModelShape,
    pos: Point,
    button: u32,
    modifiers: u32,
) -> (ItemViewState, Option<ItemIndex>) {
    if button != 1 || !s.enabled {
        (s, None)
    } else {
        match spec_index_at(s, shape, pos) {
            None => (s, None),
            Some(i) => (
                ItemViewState {
                    current: Some(i),
                    selection: if spec_has_ctrl(modifiers) {
                        toggled(s.selection, i)
                    } else {
                        seq![i]
                    },
                    has_focus: true,
                    ..s
                },
                Some(i),
            ),
        }
    }
}

/// The first visible row after `setVerticalOffset(offset)`.
pub open spec fn spec_set_offset(s: ItemViewState, shape: ModelShape, offset: int) -> ItemViewState {
    ItemViewState { vertical_offset: clamp_int(offset, 0, max_offset_of(s, shape.rows as int)), ..s }
}

/// The wheel: three rows up when turned away, three down when turned toward.
pub open spec fn spec_wheel(s: ItemViewState, shape: ModelShape, delta_y: i32) -> ItemViewState {
    if delta_y == 0 {
        s
    } else if delta_y > 0 {
        spec_set_offset(s, shape, s.vertical_offset - 3)
    } else {
        spec_set_offset(s, shape, s.vertical_offset + 3)
    }
}

/// A fresh view in `mode`: 320 by 240, rows 24 high, scrolled to the top,
/// enabled, without focus, current item or selection.
pub open spec fn fresh_item_view(mode: ViewMode) -> ItemViewState {
    ItemViewState {
        mode,
        row_height: DEFAULT_ROW_HEIGHT as int,
        vertical_offset: 0,
        geometry: Rect { x: 0, y: 0, width: 320, height: 240 },
        enabled: true,
        has_focus: false,
        current: None,
        selection: Seq::empty(),
    }
}

/// An item view: presentation, scroll position, current item and selection.
pub struct AbstractItemView {
    mode: ViewMode,
    row_height: i32,
    vertical_offset: i32,
    geometry: Rect,
    enabled: bool,
    has_focus: bool,
    current: Option<ItemIndex>,
    selection: Vec<ItemIndex>,
}

impl View for AbstractItemView {
    type V = ItemViewState;

    closed spec fn view(&self) -> ItemViewState {
        ItemViewState {
            mode: self.mode,
            row_height: self.row_height as int,
            vertical_offset: self.vertical_offset as int,
            geometry: self.geometry,
            enabled: self.enabled,
            has_focus: self.has_focus,
            current: self.current,
            selection: self.selection@,
        }
    }
}

impl AbstractItemView {
    /// The view's invariant.
    pub open spec fn wf(&self) -> bool {
        item_view_wf(self@)
    }

    /// A list view.
    pub fn new() -> (r: Self)
        ensures
            r.wf(),
            r@ == fresh_item_view(ViewMode::List),
    {
        Self::with_mode(ViewMode::List)
    }

    /// A view presenting its model in `mode`.
    pub fn with_mode(mode: ViewMode) -> (r: Self)
        ensures
            r.wf(),
            r@ == fresh_item_view(mode),
    {
        AbstractItemView {
            mode,
            row_height: DEFAULT_ROW_HEIGHT,
            vertical_offset: 0,
            geometry: Rect { x: 0, y: 0, width: 320, height: 240 },
            enabled: true,
            has_focus: false,
            current: None,
            selection: Vec::new(),
        }
    }

    fn header(&self) -> (r: i64)
        ensures
            r == header_offset(self@.mode),
    {
        if self.mode == ViewMode::Table {
            HEADER_HEIGHT as i64
        } else {
            0
        }
    }

    fn page_rows(&self) -> (r: i64)
        requires
            self.wf(),
        ensures
            r == page_rows_of(self@),
            1 <= r <= i32::MAX,
    {
        let avail = self.geometry.height as i64 - self.header();
        let avail: i64 = if avail > 0 {
            avail
        } else {
            0
        };
        let p = avail / (self.row_height as i64);
        proof {
            assert(p <= avail) by (nonlinear_arith)
                requires
                    p == (avail as int) / (self.row_height as int),
                    avail >= 0,
                    self.row_height >= 1,
            ;
        }
        if p > 1 {
            p
        } else {
            1
        }
    }

    fn max_offset(&self, rows: i32) -> (r: i64)
        requires
            self.wf(),
            rows >= 0,
        ensures
            r == max_offset_of(self@, rows as int),
            0 <= r <= i32::MAX,
    {
        let page = self.page_rows();
        if rows as i64 - page > 0 {
            rows as i64 - page
        } else {
            0
        }
    }

    /// The item under `pos`, if any.
    pub fn index_at(&self, pos: Point, shape: ModelShape) -> (r: Option<ItemIndex>)
        requires
            self.wf(),
            shape.wf(),
            in_item_area(self@, pos) ==> shape.columns >= 1,
        ensures
            r == spec_index_at(self@, shape, pos),
    {
        let header = self.header();
        if pos.x < 0 || (pos.y as i64) < header || pos.x >= self.geometry.width || pos.y
            >= self.geometry.height {
            return None;
        }
        let dy = (pos.y as i64 - header) as u64;
        let rh = self.row_height as u64;
        let q = dy / rh;
        proof {
            assert(q <= dy) by (nonlinear_arith)
                requires
                    q == dy / rh,
                    rh >= 1,
            ;
        }
        let visual_row: i64 = q as i64 + self.vertical_offset as i64;
        let column: i32 = if self.mode == ViewMode::Table && shape.columns > 1 {
            let w = self.geometry.width / shape.columns;
            let cw = if w > 1 {
                w
            } else {
                1
            };
            let c = pos.x / cw;
            if c < shape.columns - 1 {
                c
            } else {
                shape.columns - 1
            }
        } else {
            0
        };
        if visual_row < shape.rows as i64 {
            Some(ItemIndex { row: visual_row as i32, column })
        } else {
            None
        }
    }
    /// Scrolls so that row `offset` is the first visible, within the rows there are.
    pub fn set_vertical_offset(&mut self, offset: i32, shape: ModelShape)
        requires
            old(self).wf(),
            shape.wf(),
        ensures
            final(self).wf(),
            final(self)@ == spec_set_offset(old(self)@, shape, offset as int),
    {
        let max = self.max_offset(shape.rows);
        let o = offset as i64;
        let v: i64 = if o < 0 {
            0
        } else if o > max {
            max
        } else {
            o
        };
        self.vertical_offset = v as i32;
    }

    fn ensure_visible(&mut self, idx: ItemIndex, shape: ModelShape)
        requires
            old(self).wf(),
            shape.wf(),
        ensures
            final(self).wf(),
            final(self)@ == spec_ensure_visible(old(self)@, shape, idx),
    {
        if !idx.is_valid() {
            return;
        }
        let row: i64 = if self.mode == ViewMode::Tree {
            if idx.column == 0 && idx.row < shape.rows {
                idx.row as i64
            } else {
                return;
            }
        } else {
            idx.row as i64
        };
        let page = self.page_rows();
        let cur = self.vertical_offset as i64;
        let off: i64 = if row < cur {
            row
        } else if row >= cur + page {
            row - page + 1
        } else {
            cur
        };
        let max = self.max_offset(shape.rows);
        let v: i64 = if off < 0 {
            0
        } else if off > max {
            max
        } else {
            off
        };
        self.vertical_offset = v as i32;
    }

    /// Makes `idx` the current item, selected alone, and scrolls it into view.
    pub fn set_current_index(&mut self, idx: ItemIndex, shape: ModelShape)
        requires
            old(self).wf(),
            shape.wf(),
        ensures
            final(self).wf(),
            final(self)@ == spec_set_current(old(self)@, shape, idx),
    {
        if idx.is_valid() {
            self.current = Some(idx);
            let mut sel: Vec<ItemIndex> = Vec::new();
            sel.push(idx);
            self.selection = sel;
            assert(self.selection@ =~= seq![idx]);
        } else {
            self.current = None;
            self.selection = Vec::new();
            assert(self.selection@ =~= Seq::<ItemIndex>::empty());
        }
        self.ensure_visible(idx, shape);
    }

    /// The current item, if any.
    pub fn current_index(&self) -> (r: Option<ItemIndex>)
        ensures
            r == self@.current,
    {
        self.current
    }

    /// Scrolls item `idx` into view.
    pub fn scroll_to(&mut self, idx: ItemIndex, shape: ModelShape)
        requires
            old(self).wf(),
            shape.wf(),
        ensures
            final(self).wf(),
            final(self)@ == spec_ensure_visible(old(self)@, shape, idx),
    {
        self.ensure_visible(idx, shape);
    }

    fn move_current(&mut self, delta: i64, shape: ModelShape)
        requires
            old(self).wf(),
            shape.wf(),
            -i32::MAX <= delta <= i32::MAX,
        ensures
            final(self).wf(),
            final(self)@ == spec_move_current(old(self)@, shape, delta as int),
    {
        let rows = shape.rows as i64;
        if rows <= 0 {
            return;
        }
        let row: i64 = match self.current {
            Some(c) => if self.mode == ViewMode::Tree {
                if c.column == 0 && (c.row as i64) < rows {
                    c.row as i64
                } else {
                    0
                }
            } else {
                c.row as i64
            },
            None => 0,
        };
        let t = row + delta;
        let target: i64 = if t < 0 {
            0
        } else if t > rows - 1 {
            rows - 1
        } else {
            t
        };
        if self.mode == ViewMode::Tree || shape.columns >= 1 {
            self.set_current_index(ItemIndex { row: target as i32, column: 0 }, shape);
        }
    }

    /// Handles a key; returns the item activated by Enter.
    pub fn key_press_event(&mut self, key: u32, shape: ModelShape) -> (r: Option<ItemIndex>)
        requires
            old(self).wf(),
            shape.wf(),
        ensures
            final(self).wf(),
            (final(self)@, r) == spec_key(old(self)@, shape, key),
    {
        let rows = shape.rows as i64;
        if is_up(key) {
            self.move_current(-1, shape);
            None
        } else if is_down(key) {
            self.move_current(1, shape);
            None
        } else if is_home(key) {
            self.move_current(-rows, shape);
            None
        } else if is_end(key) {
            self.move_current(rows, shape);
            None
        } else if is_enter(key) {
            self.current
        } else {
            None
        }
    }

    fn toggle_selected(&mut self, idx: ItemIndex)
        ensures
            final(self)@ == (ItemViewState { selection: toggled(old(self)@.selection, idx), ..old(self)@ }),
    {
        let ghost s = self.selection@;
        if self.is_selected(idx) {
            let mut kept: Vec<ItemIndex> = Vec::new();
            let mut k: usize = 0;
            while k < self.selection.len()
                invariant
                    0 <= k <= s.len(),
                    self.selection@ == s,
                    self@ == old(self)@,
                    kept@ == without_item(s.subrange(0, k as int), idx),
                decreases s.len() - k,
            {
                let a = self.selection[k];
                proof {
                    assert(s.subrange(0, k + 1) =~= s.subrange(0, k as int).push(a));
                    lemma_without_item_push(s.subrange(0, k as int), a, idx);
                }
                if a != idx {
                    kept.push(a);
                }
                k = k + 1;
            }
            assert(s.subrange(0, s.len() as int) =~= s);
            self.selection = kept;
        } else {
            self.selection.push(idx);
        }
    }

    /// Whether `idx` is selected.
    pub fn is_selected(&self, idx: ItemIndex) -> (r: bool)
        ensures
            r == self@.selection.contains(idx),
    {
        let mut k: usize = 0;
        while k < self.selection.len()
            invariant
                0 <= k <= self.selection@.len(),
                forall|j: int| 0 <= j < k ==> self.selection@[j] != idx,
            decreases self.selection@.len() - k,
        {
            if self.selection[k] == idx {
                assert(self.selection@[k as int] == idx);
                return true;
            }
            k = k + 1;
        }
        false
    }

    /// The selected items, in the order they were selected.
    pub fn selected_indexes(&self) -> (r: Vec<ItemIndex>)
        ensures
            r@ == self@.selection,
    {
        self.selection.clone()
    }

    /// Handles a mouse press; returns the item clicked.
    pub fn mouse_press_event(&mut self, pos: Point, button: u32, modifiers: u32, shape: ModelShape) -> (r: Option<
        ItemIndex,
    >)
        requires
            old(self).wf(),
            shape.wf(),
            in_item_area(old(self)@, pos) ==> shape.columns >= 1,
        ensures
            final(self).wf(),
            (final(self)@, r) == spec_mouse_press(old(self)@, shape, pos, button, modifiers),
    {
        if button != 1 || !self.enabled {
            return None;
        }
        match self.index_at(pos, shape) {
            None => None,
            Some(i) => {
                if has_ctrl(modifiers) {
                    self.toggle_selected(i);
                } else {
                    let mut sel: Vec<ItemIndex> = Vec::new();
                    sel.push(i);
                    self.selection = sel;
                    assert(self.selection@ =~= seq![i]);
                }
                self.current = Some(i);
                self.has_focus = true;
                Some(i)
            },
        }
    }

    /// Handles a double click; returns the item activated by it.
    pub fn mouse_double_click_event(&self, pos: Point, button: u32, shape: ModelShape) -> (r: Option<
        ItemIndex,
    >)
        requires
            self.wf(),
            shape.wf(),
            in_item_area(self@, pos) ==> shape.columns >= 1,
        ensures
            r == (if button == 1 {
                spec_index_at(self@, shape, pos)
            } else {
                None
            }),
    {
        if button == 1 {
            self.index_at(pos, shape)
        } else {
            None
        }
    }

    /// Handles the wheel: three rows per notch.
    pub fn wheel_event(&mut self, delta_y: i32, shape: ModelShape)
        requires
            old(self).wf(),
            shape.wf(),
            delta_y < 0 ==> old(self)@.vertical_offset + 3 <= i32::MAX,
        ensures
            final(self).wf(),
            final(self)@ == spec_wheel(old(self)@, shape, delta_y),
    {
        if delta_y > 0 {
            let o = self.vertical_offset - 3;
            self.set_vertical_offset(o, shape);
        } else if delta_y < 0 {
            let o = self.vertical_offset + 3;
            self.set_vertical_offset(o, shape);
        }
    }
    /// Attaches the view to another model: a fresh selection, no current
    /// item, scrolled to the top.
    pub fn set_model(&mut self)
        requires
            old(self).wf(),
        ensures
            final(self).wf(),
            final(self)@ == (ItemViewState {
                vertical_offset: 0,
                current: None,
                selection: Seq::empty(),
                ..old(self)@
            }),
    {
        self.current = None;
        self.selection = Vec::new();
        self.vertical_offset = 0;
    }

    pub fn view_mode(&self) -> (r: ViewMode)
        ensures
            r == self@.mode,
    {
        self.mode
    }

    pub fn set_view_mode(&mut self, mode: ViewMode)
        requires
            old(self).wf(),
        ensures
            final(self).wf(),
            final(self)@ == (ItemViewState { mode, ..old(self)@ }),
    {
        self.mode = mode;
    }

    pub fn row_height(&self) -> (r: i32)
        ensures
            r == self@.row_height,
    {
        self.row_height
    }

    /// Sets the row height; heights below one pixel are ignored.
    pub fn set_row_height(&mut self, height: i32)
        requires
            old(self).wf(),
        ensures
            final(self).wf(),
            final(self)@ == (if height > 0 {
                ItemViewState { row_height: height as int, ..old(self)@ }
            } else {
                old(self)@
            }),
    {
        if height > 0 {
            self.row_height = height;
        }
    }

    /// The first visible row.
    pub fn vertical_offset(&self) -> (r: i32)
        ensures
            r == self@.vertical_offset,
    {
        self.vertical_offset
    }

    pub fn geometry(&self) -> (r: Rect)
        ensures
            r == self@.geometry,
    {
        self.geometry
    }

    pub fn set_geometry(&mut self, rect: Rect)
        requires
            old(self).wf(),
        ensures
            final(self).wf(),
            final(self)@ == (ItemViewState { geometry: rect, ..old(self)@ }),
    {
        self.geometry = rect;
    }

    pub fn is_enabled(&self) -> (r: bool)
        ensures
            r == self@.enabled,
    {
        self.enabled
    }

    pub fn set_enabled(&mut self, enabled: bool)
        requires
            old(self).wf(),
        ensures
            final(self).wf(),
            final(self)@ == (ItemViewState { enabled, ..old(self)@ }),
    {
        self.enabled = enabled;
    }

    pub fn has_focus(&self) -> (r: bool)
        ensures
            r == self@.has_focus,
    {
        self.has_focus
    }

    pub fn set_has_focus(&mut self, focus: bool)
        requires
            old(self).wf(),
        ensures
            final(self).wf(),
            final(self)@ == (ItemViewState { has_focus: focus, ..old(self)@ }),
    {
        self.has_focus = focus;
    }

    /// The preferred size: 320 by 240.
    pub fn size_hint(&self) -> (r: Size)
        ensures
            r == (Size { width: 320, height: 240 }),
    {
        Size { width: 320, height: 240 }
    }
}

/// Fill of a row's background: the highlight for a selected row, a light
/// shade for every other visible row, white otherwise.
#[derive(Debug, Clone, Copy, PartialEq, Eq, Structural)]
pub enum RowShade {
    Selected,
    Alternate,
    Plain,
}

/// One drawing step of an item view. The caller draws it with the model's
/// texts (a column's header text, an item's display text) and the view's
/// colours.
#[derive(Debug, Clone, Copy, PartialEq, Eq, Structural)]
pub enum ItemPaintOp {
    /// The outline of the whole view, white inside.
    Frame { width: i32, height: i32 },
    /// The header cell of a table column, its header text starting at `text_at`.
    HeaderCell { rect: Rect, column: i32, text_at: Point },
    /// The background of a row.
    RowBackground { rect: Rect, shade: RowShade },
    /// The display text of the item at `row`, `column` (in a tree, the item at
    /// display row `row`), starting at `text_at`; light on a selected row.
    CellText { row: i32, column: i32, text_at: Point, selected: bool },
    /// A grid line of a table at `x`, from `top` to `bottom`.
    GridLine { x: i32, top: i32, bottom: i32 },
}

/// `x` is an `i32`.
pub open spec fn fits_i32(x: int) -> bool {
    i32::MIN <= x <= i32::MAX
}

/// Columns drawn for a table: the model's, at least one.
pub open spec fn paint_columns(shape: ModelShape) -> int {
    if shape.columns > 1 {
        shape.columns as int
    } else {
        1
    }
}

/// Columns drawn per row: a table's columns, one otherwise.
pub open spec fn row_columns(s: ItemViewState, shape: ModelShape) -> int {
    if s.mode == ViewMode::Table {
        paint_columns(shape)
    } else {
        1
    }
}

/// The width of each of `n` columns across `width`: an even share (rounded
/// toward zero), at least a pixel.
pub open spec fn column_width(width: int, n: int) -> int {
    if div_toward_zero(width, n) > 1 {
        div_toward_zero(width, n)
    } else {
        1
    }
}

/// The row after the last one drawn: a page from the first visible row,
/// within the rows there are.
pub open spec fn paint_end(s: ItemViewState, shape: ModelShape) -> int {
    if s.vertical_offset + page_rows_of(s) < shape.rows {
        s.vertical_offset + page_rows_of(s)
    } else {
        shape.rows as int
    }
}

/// The top of row `r` on screen.
pub open spec fn row_top(s: ItemViewState, r: int) -> int {
    header_offset(s.mode) + (r - s.vertical_offset) * s.row_height
}

/// Whether the cell in `column` names an item: in a tree the row's item;
/// otherwise a column the model has.
pub open spec fn cell_valid(s: ItemViewState, shape: ModelShape, column: int) -> bool {
    s.mode == ViewMode::Tree || column < shape.columns
}

/// Where a cell's text starts across: 18 pixels per tree level, then 6.
pub open spec fn text_indent(s: ItemViewState, depths: Seq<u32>, r: int) -> int {
    if s.mode == ViewMode::Tree {
        depths[r] * 18 + 6
    } else {
        6
    }
}

/// Whether row `r` is selected: its first item is.
pub open spec fn row_selected(s: ItemViewState, r: int) -> bool {
    s.selection.contains(ItemIndex { row: r as i32, column: 0 })
}

/// The steps that draw the cell of row `r` in `column`: its text, and in a
/// table the grid line at its left; nothing for a cell without an item.
pub open spec fn cell_ops(s: ItemViewState, shape: ModelShape, depths: Seq<u32>, r: int, column: int) -> Seq<ItemPaintOp> {
    let cw = column_width(s.geometry.width as int, row_columns(s, shape));
    let top = row_top(s, r);
    if !cell_valid(s, shape, column) {
        Seq::empty()
    } else {
        seq![
            ItemPaintOp::CellText {
                row: r as i32,
                column: column as i32,
                text_at: Point {
                    x: (column * cw + text_indent(s, depths, r)) as i32,
                    y: (top + s.row_height - 6) as i32,
                },
                selected: row_selected(s, r),
            },
        ] + if s.mode == ViewMode::Table {
            seq![ItemPaintOp::GridLine { x: (column * cw) as i32, top: top as i32, bottom: (top + s.row_height) as i32 }]
        } else {
            Seq::empty()
        }
    }
}

/// The cells of row `r` in columns before `k`.
pub open spec fn cells_ops(s: ItemViewState, shape: ModelShape, depths: Seq<u32>, r: int, k: int) -> Seq<ItemPaintOp>
    decreases k,
{
    if k <= 0 {
        Seq::empty()
    } else {
        cells_ops(s, shape, depths, r, k - 1) + cell_ops(s, shape, depths, r, k - 1)
    }
}

/// The steps that draw row `r`: its background, then its cells.
pub open spec fn row_ops(s: ItemViewState, shape: ModelShape, depths: Seq<u32>, r: int) -> Seq<ItemPaintOp> {
    let top = row_top(s, r);
    let shade = if row_selected(s, r) {
        RowShade::Selected
    } else if (r - s.vertical_offset) % 2 == 1 {
        RowShade::Alternate
    } else {
        RowShade::Plain
    };
    let w = if s.geometry.width - 2 > 0 {
        s.geometry.width - 2
    } else {
        0
    };
    seq![
        ItemPaintOp::RowBackground {
            rect: Rect { x: 1, y: top as i32, width: w as i32, height: s.row_height as i32 },
            shade,
        },
    ] + cells_ops(s, shape, depths, r, row_columns(s, shape))
}

/// The first `n` rows drawn, from the first visible row.
pub open spec fn rows_ops(s: ItemViewState, shape: ModelShape, depths: Seq<u32>, n: int) -> Seq<ItemPaintOp>
    decreases n,
{
    if n <= 0 {
        Seq::empty()
    } else {
        rows_ops(s, shape, depths, n - 1) + row_ops(s, shape, depths, s.vertical_offset + n - 1)
    }
}

/// The header cell of table column `c`.
pub open spec fn header_cell(s: ItemViewState, shape: ModelShape, c: int) -> ItemPaintOp {
    let cw = column_width(s.geometry.width as int, paint_columns(shape));
    ItemPaintOp::HeaderCell {
        rect: Rect { x: (c * cw) as i32, y: 0, width: cw as i32, height: HEADER_HEIGHT },
        column: c as i32,
        text_at: Point { x: (c * cw + 6) as i32, y: 17 },
    }
}

/// The header cells of a table; nothing in other modes.
pub open spec fn header_ops(s: ItemViewState, shape: ModelShape) -> Seq<ItemPaintOp> {
    if s.mode == ViewMode::Table {
        Seq::new(paint_columns(shape) as nat, |c: int| header_cell(s, shape, c))
    } else {
        Seq::empty()
    }
}

/// The steps that paint the view: its outline, a table's header, then each
/// visible row with its cells.
pub open spec fn spec_paint_ops(s: ItemViewState, shape: ModelShape, depths: Seq<u32>) -> Seq<ItemPaintOp> {
    let n = paint_end(s, shape) - s.vertical_offset;
    seq![ItemPaintOp::Frame { width: s.geometry.width, height: s.geometry.height }] + header_ops(s, shape)
        + rows_ops(s, shape, depths, if n > 0 { n } else { 0 })
}

/// Drawing row `r` can be computed in `i32`.
pub open spec fn row_fits(s: ItemViewState, shape: ModelShape, depths: Seq<u32>, r: int) -> bool {
    let top = row_top(s, r);
    let cw = column_width(s.geometry.width as int, row_columns(s, shape));
    &&& fits_i32((r - s.vertical_offset) * s.row_height)
    &&& fits_i32(top)
    &&& fits_i32(s.geometry.width - 2)
    &&& fits_i32(top + s.row_height)
    &&& fits_i32(top + s.row_height - 6)
    &&& forall|c: int|
        0 <= c < row_columns(s, shape) && cell_valid(s, shape, c) ==> {
            &&& fits_i32(#[trigger] (c * cw))
            &&& s.mode == ViewMode::Tree ==> fits_i32(depths[r] * 18) && fits_i32(depths[r] * 18 + 6)
            &&& fits_i32(c * cw + text_indent(s, depths, r))
        }
}

/// Painting the view can be computed in `i32`, and a tree has a depth for
/// every display row: every value the drawing forms lies within the range.
pub open spec fn paint_fits(s: ItemViewState, shape: ModelShape, depths: Seq<u32>) -> bool {
    let cw = column_width(s.geometry.width as int, paint_columns(shape));
    &&& shape.wf()
    &&& s.mode == ViewMode::Tree ==> depths.len() >= shape.rows
    &&& fits_i32(s.vertical_offset + page_rows_of(s))
    &&& s.mode == ViewMode::Table ==> forall|c: int|
        0 <= c < paint_columns(shape) ==> fits_i32(#[trigger] (c * cw)) && fits_i32(c * cw + 6)
    &&& forall|r: int|
        s.vertical_offset <= r < paint_end(s, shape) ==> #[trigger] row_fits(s, shape, depths, r)
}

impl AbstractItemView {
    /// The width of each of `n` columns.
    fn column_width_exec(&self, n: i64) -> (r: i64)
        requires
            1 <= n <= i32::MAX,
        ensures
            r == column_width(self@.geometry.width as int, n as int),
    {
        let w = self.geometry.width as i64 / n;
        if w > 1 {
            w
        } else {
            1
        }
    }

    /// Appends the steps that draw row `r` ([`row_ops`]).
    fn push_row_ops(&self, ops: &mut Vec<ItemPaintOp>, shape: ModelShape, depths: &[u32], r: i64)
        requires
            self.wf(),
            paint_fits(self@, shape, depths@),
            self@.vertical_offset <= r < paint_end(self@, shape),
        ensures
            final(ops)@ == old(ops)@ + row_ops(self@, shape, depths@, r as int),
    {
        let ghost s = self@;
        assert(row_fits(s, shape, depths@, r as int));
        let rh = self.row_height as i64;
        let first = self.vertical_offset as i64;
        let top = self.header() + (r - first) * rh;
        let selected = self.is_selected(ItemIndex { row: r as i32, column: 0 });
        let vrow = r - first;
        let shade = if selected {
            RowShade::Selected
        } else if vrow % 2 == 1 {
            RowShade::Alternate
        } else {
            RowShade::Plain
        };
        let w0 = self.geometry.width as i64 - 2;
        let w = if w0 > 0 {
            w0
        } else {
            0
        };
        ops.push(ItemPaintOp::RowBackground {
            rect: Rect { x: 1, y: top as i32, width: w as i32, height: self.row_height },
            shade,
        });
        let table = self.mode == ViewMode::Table;
        let tree = self.mode == ViewMode::Tree;
        let vcols: i64 = if table {
            if shape.columns > 1 {
                shape.columns as i64
            } else {
                1
            }
        } else {
            1
        };
        let cw = self.column_width_exec(vcols);
        let ghost start = old(ops)@.push(ItemPaintOp::RowBackground {
            rect: Rect { x: 1, y: top as i32, width: w as i32, height: self.row_height },
            shade,
        });
        let mut c: i64 = 0;
        while c < vcols
            invariant
                0 <= c <= vcols,
                vcols == row_columns(s, shape),
                cw == column_width(s.geometry.width as int, row_columns(s, shape)),
                top == row_top(s, r as int),
                selected == row_selected(s, r as int),
                table == (s.mode == ViewMode::Table),
                tree == (s.mode == ViewMode::Tree),
                s == self@,
                self.wf(),
                row_fits(s, shape, depths@, r as int),
                paint_fits(s, shape, depths@),
                s.vertical_offset <= r < paint_end(s, shape),
                rh == s.row_height,
                ops@ == start + cells_ops(s, shape, depths@, r as int, c as int),
            decreases vcols - c,
        {
            let valid = tree || c < shape.columns as i64;
            assert(valid == cell_valid(s, shape, c as int));
            if valid {
                assert(fits_i32(c * cw));
                let indent: i64 = if tree {
                    assert(paint_end(s, shape) <= shape.rows);
                    assert(0 <= r < depths@.len());
                    depths[r as usize] as i64 * 18 + 6
                } else {
                    6
                };
                assert(indent == text_indent(s, depths@, r as int));
                ops.push(ItemPaintOp::CellText {
                    row: r as i32,
                    column: c as i32,
                    text_at: Point { x: (c * cw + indent) as i32, y: (top + rh - 6) as i32 },
                    selected,
                });
                if table {
                    ops.push(ItemPaintOp::GridLine {
                        x: (c * cw) as i32,
                        top: top as i32,
                        bottom: (top + rh) as i32,
                    });
                }
            }
            proof {
                assert(ops@ =~= start + cells_ops(s, shape, depths@, r as int, c + 1));
            }
            c = c + 1;
        }
        assert(ops@ =~= old(ops)@ + row_ops(s, shape, depths@, r as int));
    }

    /// The steps that paint the view ([`spec_paint_ops`]), given the model's
    /// shape and, in a tree, the depth of each display row.
    pub fn paint_ops(&self, shape: ModelShape, depths: &[u32]) -> (r: Vec<ItemPaintOp>)
        requires
            self.wf(),
            paint_fits(self@, shape, depths@),
        ensures
            r@ == spec_paint_ops(self@, shape, depths@),
    {
        let ghost s = self@;
        let mut ops: Vec<ItemPaintOp> = Vec::new();
        ops.push(ItemPaintOp::Frame { width: self.geometry.width, height: self.geometry.height });
        let cols: i64 = if shape.columns > 1 {
            shape.columns as i64
        } else {
            1
        };
        if self.mode == ViewMode::Table {
            let cw = self.column_width_exec(cols);
            let ghost start = ops@;
            let mut c: i64 = 0;
            while c < cols
                invariant
                    0 <= c <= cols,
                    cols == paint_columns(shape),
                    cw == column_width(s.geometry.width as int, paint_columns(shape)),
                    s == self@,
                    s.mode == ViewMode::Table,
                    paint_fits(s, shape, depths@),
                    ops@ == start + Seq::new(c as nat, |k: int| header_cell(s, shape, k)),
                decreases cols - c,
            {
                assert(fits_i32(c * cw) && fits_i32(c * cw + 6));
                ops.push(ItemPaintOp::HeaderCell {
                    rect: Rect { x: (c * cw) as i32, y: 0, width: cw as i32, height: HEADER_HEIGHT },
                    column: c as i32,
                    text_at: Point { x: (c * cw + 6) as i32, y: 17 },
                });
                proof {
                    assert(ops@ =~= start + Seq::new((c + 1) as nat, |k: int| header_cell(s, shape, k)));
                }
                c = c + 1;
            }
            assert(ops@ =~= seq![ItemPaintOp::Frame { width: s.geometry.width, height: s.geometry.height }]
                + header_ops(s, shape));
        } else {
            assert(ops@ =~= seq![ItemPaintOp::Frame { width: s.geometry.width, height: s.geometry.height }]
                + header_ops(s, shape));
        }
        let first = self.vertical_offset as i64;
        let page = self.page_rows();
        let rows = shape.rows as i64;
        let end = if first + page < rows {
            first + page
        } else {
            rows
        };
        let ghost base = ops@;
        let mut r = first;
        while r < end
            invariant
                first <= r,
                first == s.vertical_offset,
                end == paint_end(s, shape),
                r <= end || end < first && r == first,
                s == self@,
                self.wf(),
                paint_fits(s, shape, depths@),
                ops@ == base + rows_ops(s, shape, depths@, r - first),
            decreases end - r,
        {
            self.push_row_ops(&mut ops, shape, depths, r);
            proof {
                assert(rows_ops(s, shape, depths@, r + 1 - first) == rows_ops(s, shape, depths@, r - first)
                    + row_ops(s, shape, depths@, s.vertical_offset + (r + 1 - first) - 1));
            }
            r = r + 1;
        }
        proof {
            let n = paint_end(s, shape) - s.vertical_offset;
            if n <= 0 {
                assert(r == first);
                assert(rows_ops(s, shape, depths@, 0) =~= Seq::<ItemPaintOp>::empty());
            }
        }
        ops
    }
}

/// A list view (`QListView`).
pub struct ListView(AbstractItemView);

/// A tree view (`QTreeView`).
pub struct TreeView(AbstractItemView);

/// A table view (`QTableView`).
pub struct TableView(AbstractItemView);

/// A column view (`QColumnView`).
pub struct ColumnView(AbstractItemView);

impl ListView {
    /// A fresh view in list mode.
    pub fn new() -> (r: Self)
        ensures
            r.view().wf(),
            r.view()@ == fresh_item_view(ViewMode::List),
    {
        ListView(AbstractItemView::with_mode(ViewMode::List))
    }

    /// The underlying item view.
    pub closed spec fn spec_view(&self) -> &AbstractItemView {
        &self.0
    }

    #[verifier::when_used_as_spec(spec_view)]
    pub fn view(&self) -> (r: &AbstractItemView)
        ensures
            r == self.spec_view(),
    {
        &self.0
    }

    /// The underlying item view, to change.
    pub fn view_mut(&mut self) -> (r: &mut AbstractItemView)
        ensures
            *r == *old(self).view(),
            *final(self).view() == *final(r),
    {
        &mut self.0
    }

    pub fn current_index(&self) -> (r: Option<ItemIndex>)
        ensures
            r == self.view()@.current,
    {
        self.0.current_index()
    }

    /// Makes `idx` current and selected, scrolled into view.
    pub fn set_current_index(&mut self, idx: ItemIndex, shape: ModelShape)
        requires
            old(self).view().wf(),
            shape.wf(),
        ensures
            final(self).view().wf(),
            final(self).view()@ == spec_set_current(old(self).view()@, shape, idx),
    {
        self.0.set_current_index(idx, shape);
    }
}

impl TreeView {
    /// A fresh view in tree mode.
    pub fn new() -> (r: Self)
        ensures
            r.view().wf(),
            r.view()@ == fresh_item_view(ViewMode::Tree),
    {
        TreeView(AbstractItemView::with_mode(ViewMode::Tree))
    }

    /// The underlying item view.
    pub closed spec fn spec_view(&self) -> &AbstractItemView {
        &self.0
    }

    #[verifier::when_used_as_spec(spec_view)]
    pub fn view(&self) -> (r: &AbstractItemView)
        ensures
            r == self.spec_view(),
    {
        &self.0
    }

    /// The underlying item view, to change.
    pub fn view_mut(&mut self) -> (r: &mut AbstractItemView)
        ensures
            *r == *old(self).view(),
            *final(self).view() == *final(r),
    {
        &mut self.0
    }

    pub fn current_index(&self) -> (r: Option<ItemIndex>)
        ensures
            r == self.view()@.current,
    {
        self.0.current_index()
    }

    /// Makes `idx` current and selected, scrolled into view.
    pub fn set_current_index(&mut self, idx: ItemIndex, shape: ModelShape)
        requires
            old(self).view().wf(),
            shape.wf(),
        ensures
            final(self).view().wf(),
            final(self).view()@ == spec_set_current(old(self).view()@, shape, idx),
    {
        self.0.set_current_index(idx, shape);
    }
}

impl TableView {
    /// A fresh view in table mode.
    pub fn new() -> (r: Self)
        ensures
            r.view().wf(),
            r.view()@ == fresh_item_view(ViewMode::Table),
    {
        TableView(AbstractItemView::with_mode(ViewMode::Table))
    }

    /// The underlying item view.
    pub closed spec fn spec_view(&self) -> &AbstractItemView {
        &self.0
    }

    #[verifier::when_used_as_spec(spec_view)]
    pub fn view(&self) -> (r: &AbstractItemView)
        ensures
            r == self.spec_view(),
    {
        &self.0
    }

    /// The underlying item view, to change.
    pub fn view_mut(&mut self) -> (r: &mut AbstractItemView)
        ensures
            *r == *old(self).view(),
            *final(self).view() == *final(r),
    {
        &mut self.0
    }

    pub fn current_index(&self) -> (r: Option<ItemIndex>)
        ensures
            r == self.view()@.current,
    {
        self.0.current_index()
    }

    /// Makes `idx` current and selected, scrolled into view.
    pub fn set_current_index(&mut self, idx: ItemIndex, shape: ModelShape)
        requires
            old(self).view().wf(),
            shape.wf(),
        ensures
            final(self).view().wf(),
            final(self).view()@ == spec_set_current(old(self).view()@, shape, idx),
    {
        self.0.set_current_index(idx, shape);
    }
}

impl ColumnView {
    /// A fresh view in column mode.
    pub fn new() -> (r: Self)
        ensures
            r.view().wf(),
            r.view()@ == fresh_item_view(ViewMode::Column),
    {
        ColumnView(AbstractItemView::with_mode(ViewMode::Column))
    }

    /// The underlying item view.
    pub closed spec fn spec_view(&self) -> &AbstractItemView {
        &self.0
    }

    #[verifier::when_used_as_spec(spec_view)]
    pub fn view(&self) -> (r: &AbstractItemView)
        ensures
            r == self.spec_view(),
    {
        &self.0
    }

    /// The underlying item view, to change.
    pub fn view_mut(&mut self) -> (r: &mut AbstractItemView)
        ensures
            *r == *old(self).view(),
            *final(self).view() == *final(r),
    {
        &mut self.0
    }

    pub fn current_index(&self) -> (r: Option<ItemIndex>)
        ensures
            r == self.view()@.current,
    {
        self.0.current_index()
    }

    /// Makes `idx` current and selected, scrolled into view.
    pub fn set_current_index(&mut self, idx: ItemIndex, shape: ModelShape)
        requires
            old(self).view().wf(),
            shape.wf(),
        ensures
            final(self).view().wf(),
            final(self).view()@ == spec_set_current(old(self).view()@, shape, idx),
    {
        self.0.set_current_index(idx, shape);
    }
}



/// An item found under a point exists in the model.
pub proof fn lemma_index_at_in_model(s: ItemViewState, shape: ModelShape, pos: Point)
    requires
        item_view_wf(s),
        shape.wf(),
    ensures
        spec_index_at(s, shape, pos) matches Some(i) ==> 0 <= i.row < shape.rows && 0 <= i.column
            < (if shape.columns > 1 {
            shape.columns as int
        } else {
            1
        }),
{
    if in_item_area(s, pos) {
        let dy = pos.y - header_offset(s.mode);
        assert(dy / s.row_height >= 0) by (nonlinear_arith)
            requires
                dy >= 0,
                s.row_height >= 1,
        ;
        if s.mode == ViewMode::Table && shape.columns > 1 {
            let w = (s.geometry.width as int) / (shape.columns as int);
            let cw = if w > 1 {
                w
            } else {
                1
            };
            assert((pos.x as int) / cw >= 0) by (nonlinear_arith)
                requires
                    pos.x >= 0,
                    cw >= 1,
            ;
        }
    }
}

/// Scrolling an item of the model into view leaves it on the visible page.
pub proof fn lemma_ensure_visible_shows(s: ItemViewState, shape: ModelShape, idx: ItemIndex)
    requires
        item_view_wf(s),
        shape.wf(),
        idx.spec_is_valid(),
        0 <= idx.row < shape.rows,
        s.mode == ViewMode::Tree ==> idx.column == 0,
    ensures
        ({
            let t = spec_ensure_visible(s, shape, idx);
            t.vertical_offset <= idx.row < t.vertical_offset + page_rows_of(t)
        }),
{
}

/// Whatever a move does, the current item stays in the model: a row that
/// exists, in the first column.
pub proof fn lemma_move_stays_in_model(s: ItemViewState, shape: ModelShape, delta: int)
    requires
        item_view_wf(s),
        shape.wf(),
        shape.rows >= 1,
        s.mode == ViewMode::Tree || shape.columns >= 1,
    ensures
        spec_move_current(s, shape, delta).current matches Some(c) && 0 <= c.row < shape.rows
            && c.column == 0,
        spec_move_current(s, shape, delta).vertical_offset <= spec_move_current(
            s,
            shape,
            delta,
        ).current->0.row < spec_move_current(s, shape, delta).vertical_offset + page_rows_of(
            spec_move_current(s, shape, delta),
        ),
{
    let t = spec_move_target(s, shape, delta).unwrap();
    let picked = ItemViewState { current: Some(t), selection: seq![t], ..s };
    lemma_ensure_visible_shows(picked, shape, t);
}

/// Ctrl-clicking the same item twice gives back the selection there was.
pub proof fn lemma_toggle_twice(sel: Seq<ItemIndex>, x: ItemIndex)
    ensures
        forall|a: ItemIndex| #[trigger] toggled(toggled(sel, x), x).contains(a) <==> sel.contains(a),
{
    lemma_without_item_contains(sel, x);
    lemma_without_item_contains(sel.push(x), x);
    let once = toggled(sel, x);
    lemma_without_item_contains(once, x);
    assert forall|a: ItemIndex| #[trigger] toggled(toggled(sel, x), x).contains(a) <==> sel.contains(a) by {
        if sel.contains(x) {
            assert(!once.contains(x));
            let twice = once.push(x);
            assert(twice.contains(a) <==> (once.contains(a) || a == x)) by {
                if twice.contains(a) {
                    let j = choose|j: int| 0 <= j < twice.len() && twice[j] == a;
                    if j < once.len() {
                        assert(once[j] == a);
                    }
                }
                if once.contains(a) {
                    let j = choose|j: int| 0 <= j < once.len() && once[j] == a;
                    assert(twice[j] == a);
                }
                if a == x {
                    assert(twice[once.len() as int] == a);
                }
            }
        } else {
            assert(once =~= sel.push(x));
            assert(once.contains(x)) by {
                assert(once[sel.len() as int] == x);
            }
            assert(once.contains(a) <==> (sel.contains(a) || a == x)) by {
                if once.contains(a) {
                    let j = choose|j: int| 0 <= j < once.len() && once[j] == a;
                    if j < sel.len() {
                        assert(sel[j] == a);
                    }
                }
                if sel.contains(a) {
                    let j = choose|j: int| 0 <= j < sel.len() && sel[j] == a;
                    assert(once[j] == a);
                }
            }
        }
    }
}

/// Scrolling never goes past the last page nor above the first row.
pub proof fn lemma_offset_in_range(s: ItemViewState, shape: ModelShape, offset: int)
    requires
        item_view_wf(s),
        shape.wf(),
    ensures
        0 <= spec_set_offset(s, shape, offset).vertical_offset <= max_offset_of(s, shape.rows as int),
        shape.rows as int <= page_rows_of(s) ==> spec_set_offset(s, shape, offset).vertical_offset == 0,
{
}

/// Column header labels of a table (`QHeaderView`).
pub struct HeaderView {
    labels: Vec<String>,
}

impl View for HeaderView {
    type V = Seq<Seq<char>>;

    closed spec fn view(&self) -> Seq<Seq<char>> {
        self.labels@.map_values(|l: String| l@)
    }
}

impl HeaderView {
    /// A header without sections.
    pub fn new() -> (r: Self)
        ensures
            r@ == Seq::<Seq<char>>::empty(),
    {
        let r = HeaderView { labels: Vec::new() };
        assert(r@ =~= Seq::<Seq<char>>::empty());
        r
    }

    /// The number of sections.
    pub fn count(&self) -> (r: usize)
        ensures
            r == self@.len(),
    {
        self.labels.len()
    }

    /// Replaces the section labels.
    pub fn set_labels(&mut self, labels: Vec<String>)
        ensures
            final(self)@ == labels@.map_values(|l: String| l@),
    {
        self.labels = labels;
    }

    /// The label of `section`, if there is such a section.
    pub fn label(&self, section: usize) -> (r: Option<String>)
        ensures
            section < self@.len() ==> r is Some && r->0@ == self@[section as int],
            section >= self@.len() ==> r is None,
    {
        if section < self.labels.len() {
            Some(self.labels[section].clone())
        } else {
            None
        }
    }

    /// A click on `section`: reported when the section exists.
    pub fn click_section(&self, section: i32) -> (r: Option<i32>)
        ensures
            r == (if 0 <= section < self@.len() {
                Some(section)
            } else {
                None
            }),
    {
        if section >= 0 && (section as usize) < self.labels.len() {
            Some(section)
        } else {
            None
        }
    }
}

/// A value widget's link to one cell of a model (`QDataWidgetMapper`): the
/// row it shows and the column it maps.
pub struct DataWidgetMapperView {
    pub has_model: bool,
    pub current_index: int,
    pub mapped_column: int,
}

/// A mapper linking a value widget to one cell of a model row.
pub struct DataWidgetMapper {
    has_model: bool,
    current_index: i32,
    mapped_column: i32,
}

impl View for DataWidgetMapper {
    type V = DataWidgetMapperView;

    closed spec fn view(&self) -> DataWidgetMapperView {
        DataWidgetMapperView {
            has_model: self.has_model,
            current_index: self.current_index as int,
            mapped_column: self.mapped_column as int,
        }
    }
}

impl DataWidgetMapper {
    /// A mapper without a model, at row -1, mapping column 0.
    pub fn new() -> (r: Self)
        ensures
            r@ == (DataWidgetMapperView { has_model: false, current_index: -1, mapped_column: 0 }),
    {
        DataWidgetMapper { has_model: false, current_index: -1, mapped_column: 0 }
    }

    /// Attaches a model; the row and column stay.
    pub fn set_model(&mut self)
        ensures
            final(self)@ == (DataWidgetMapperView { has_model: true, ..old(self)@ }),
    {
        self.has_model = true;
    }

    pub fn current_index(&self) -> (r: i32)
        ensures
            r == self@.current_index,
    {
        self.current_index
    }

    /// Moves to row `index` when there is a model and the row exists in it.
    pub fn set_current_index(&mut self, index: i32, shape: ModelShape)
        ensures
            final(self)@ == (if old(self)@.has_model && 0 <= index < shape.rows {
                DataWidgetMapperView { current_index: index as int, ..old(self)@ }
            } else {
                old(self)@
            }),
    {
        if self.has_model && index >= 0 && index < shape.rows {
            self.current_index = index;
        }
    }

    pub fn mapped_column(&self) -> (r: i32)
        ensures
            r == self@.mapped_column,
    {
        self.mapped_column
    }

    /// Maps `column`; a negative column maps the first.
    pub fn set_mapped_column(&mut self, column: i32)
        ensures
            final(self)@ == (DataWidgetMapperView {
                mapped_column: if column > 0 {
                    column as int
                } else {
                    0
                },
                ..old(self)@
            }),
    {
        self.mapped_column = if column > 0 {
            column
        } else {
            0
        };
    }

    /// The cell whose data the widget shows and writes: the mapped column of
    /// the current row, when there is a model and that cell exists in it.
    pub fn current_data_index(&self, shape: ModelShape) -> (r: Option<ItemIndex>)
        ensures
            r == (if self@.has_model && 0 <= self@.current_index < shape.rows && 0
                <= self@.mapped_column < shape.columns {
                Some(ItemIndex { row: self@.current_index as i32, column: self@.mapped_column as i32 })
            } else {
                None
            }),
    {
        if self.has_model && self.current_index >= 0 && self.current_index < shape.rows
            && self.mapped_column >= 0 && self.mapped_column < shape.columns {
            Some(ItemIndex { row: self.current_index, column: self.mapped_column })
        } else {
            None
        }
    }
}

} // verus!
