//! Item widgets that own their model (`QListWidget`, `QTreeWidget`,
//! `QTableWidget`): a list of strings, top-level tree items and a table of
//! cells, each shown by an item view that is handed the model's shape.
//!
//! An item is held as its text; tree items carry no children.

use vstd::prelude::*;

use crate::geometry::Point;
use crate::item_view::{
    ItemIndex, ItemViewState, ListView, ModelShape, TableView, TreeView, spec_key,
    spec_mouse_press, spec_wheel,
};

verus! {

/// Texts of a sequence of strings.
pub open spec fn texts(s: Seq<String>) -> Seq<Seq<char>> {
    s.map_values(|t: String| t@)
}

/// An editable list of strings shown in a list view.
pub struct ListWidget {
    view: ListView,
    items: Vec<String>,
}

impl ListWidget {
    /// The texts of the rows.
    pub closed spec fn items(&self) -> Seq<Seq<char>> {
        texts(self.items@)
    }

    /// The state of the list view.
    pub closed spec fn view_state(&self) -> ItemViewState {
        self.view.view()@
    }

    /// The model's shape: one row per string, one column.
    pub open spec fn spec_shape(&self) -> ModelShape {
        ModelShape { rows: self.items().len() as i32, columns: 1 }
    }

    /// At most `i32::MAX` rows, and a sound view.
    pub closed spec fn wf(&self) -> bool {
        &&& self.items@.len() <= i32::MAX
        &&& self.view.view().wf()
    }

    /// An empty list.
    pub fn new() -> (r: Self)
        ensures
            r.wf(),
            r.items() == Seq::<Seq<char>>::empty(),
            r.view_state() == crate::item_view::fresh_item_view(crate::item_view::ViewMode::List),
    {
        let r = ListWidget { view: ListView::new(), items: Vec::new() };
        assert(r.items() =~= Seq::<Seq<char>>::empty());
        r
    }

    /// The number of rows.
    pub fn count(&self) -> (r: i32)
        requires
            self.wf(),
        ensures
            r == self.items().len(),
    {
        self.items.len() as i32
    }

    /// The model's shape.
    pub fn shape(&self) -> (r: ModelShape)
        requires
            self.wf(),
        ensures
            r == self.spec_shape(),
            r.wf(),
    {
        ModelShape { rows: self.items.len() as i32, columns: 1 }
    }

    /// The text of `row`, if the row exists.
    pub fn item(&self, row: i32) -> (r: Option<String>)
        ensures
            0 <= row < self.items().len() ==> r is Some && r->0@ == self.items()[row as int],
            !(0 <= row < self.items().len()) ==> r is None,
    {
        if row >= 0 && (row as usize) < self.items.len() {
            Some(self.items[row as usize].clone())
        } else {
            None
        }
    }

    /// Inserts `text` before `row` (at the end for `row == count`); refused
    /// for a row outside `0..=count`.
    pub fn insert_item(&mut self, row: i32, text: &str) -> (r: bool)
        requires
            old(self).wf(),
            0 <= row <= old(self).items().len() ==> old(self).items().len() < i32::MAX,
        ensures
            final(self).wf(),
            r == (0 <= row <= old(self).items().len()),
            final(self).items() == (if r {
                old(self).items().insert(row as int, text@)
            } else {
                old(self).items()
            }),
            final(self).view_state() == old(self).view_state(),
    {
        if row < 0 || row as usize > self.items.len() {
            return false;
        }
        let ghost before = self.items@;
        self.items.insert(row as usize, text.to_owned());
        assert(texts(self.items@) =~= texts(before).insert(row as int, text@));
        true
    }

    /// Appends `text` as the last row.
    pub fn add_item(&mut self, text: &str)
        requires
            old(self).wf(),
            old(self).items().len() < i32::MAX,
        ensures
            final(self).wf(),
            final(self).items() == old(self).items().push(text@),
            final(self).view_state() == old(self).view_state(),
    {
        let n = self.count();
        self.insert_item(n, text);
        assert(old(self).items().insert(n as int, text@) =~= old(self).items().push(text@));
    }

    /// Removes `row`; refused for a row that does not exist.
    pub fn remove_item(&mut self, row: i32) -> (r: bool)
        requires
            old(self).wf(),
        ensures
            final(self).wf(),
            r == (0 <= row < old(self).items().len()),
            final(self).items() == (if r {
                old(self).items().remove(row as int)
            } else {
                old(self).items()
            }),
            final(self).view_state() == old(self).view_state(),
    {
        if row < 0 || row as usize >= self.items.len() {
            return false;
        }
        let ghost before = self.items@;
        self.items.remove(row as usize);
        assert(texts(self.items@) =~= texts(before).remove(row as int));
        true
    }

    /// The current row of the view, if any.
    pub fn current_index(&self) -> (r: Option<ItemIndex>)
        ensures
            r == self.view_state().current,
    {
        self.view.current_index()
    }

    /// The list view.
    pub fn view(&self) -> (r: &ListView)
        ensures
            r.view()@ == self.view_state(),
    {
        &self.view
    }

    /// A key for the list view over this list.
    pub fn key_press_event(&mut self, key: u32) -> (r: Option<ItemIndex>)
        requires
            old(self).wf(),
        ensures
            final(self).wf(),
            final(self).items() == old(self).items(),
            (final(self).view_state(), r) == spec_key(old(self).view_state(), old(self).spec_shape(), key),
    {
        let shape = self.shape();
        self.view.view_mut().key_press_event(key, shape)
    }

    /// A mouse press for the list view over this list.
    pub fn mouse_press_event(&mut self, pos: Point, button: u32, modifiers: u32) -> (r: Option<
        ItemIndex,
    >)
        requires
            old(self).wf(),
        ensures
            final(self).wf(),
            final(self).items() == old(self).items(),
            (final(self).view_state(), r) == spec_mouse_press(
                old(self).view_state(),
                old(self).spec_shape(),
                pos,
                button,
                modifiers,
            ),
    {
        let shape = self.shape();
        self.view.view_mut().mouse_press_event(pos, button, modifiers, shape)
    }

    /// The wheel for the list view over this list.
    pub fn wheel_event(&mut self, delta_y: i32)
        requires
            old(self).wf(),
            delta_y < 0 ==> old(self).view_state().vertical_offset + 3 <= i32::MAX,
        ensures
            final(self).wf(),
            final(self).items() == old(self).items(),
            final(self).view_state() == spec_wheel(old(self).view_state(), old(self).spec_shape(), delta_y),
    {
        let shape = self.shape();
        self.view.view_mut().wheel_event(delta_y, shape)
    }
}


/// Inserting a row and removing it again gives back the list there was.
pub proof fn lemma_insert_then_remove(items: Seq<Seq<char>>, row: int, text: Seq<char>)
    requires
        0 <= row <= items.len(),
    ensures
        items.insert(row, text).remove(row) == items,
        items.insert(row, text)[row] == text,
{
    assert(items.insert(row, text).remove(row) =~= items);
}

/// Top-level items shown in a tree view.
pub struct TreeWidget {
    view: TreeView,
    items: Vec<String>,
}

impl TreeWidget {
    /// The texts of the top-level items.
    pub closed spec fn items(&self) -> Seq<Seq<char>> {
        texts(self.items@)
    }

    /// The state of the tree view.
    pub closed spec fn view_state(&self) -> ItemViewState {
        self.view.view()@
    }

    /// At most `i32::MAX` items, and a sound view.
    pub closed spec fn wf(&self) -> bool {
        &&& self.items@.len() <= i32::MAX
        &&& self.view.view().wf()
    }

    /// A tree without items.
    pub fn new() -> (r: Self)
        ensures
            r.wf(),
            r.items() == Seq::<Seq<char>>::empty(),
            r.view_state() == crate::item_view::fresh_item_view(crate::item_view::ViewMode::Tree),
    {
        let r = TreeWidget { view: TreeView::new(), items: Vec::new() };
        assert(r.items() =~= Seq::<Seq<char>>::empty());
        r
    }

    /// The number of top-level items.
    pub fn top_level_count(&self) -> (r: i32)
        requires
            self.wf(),
        ensures
            r == self.items().len(),
    {
        self.items.len() as i32
    }

    /// The text of top-level item `row`, if it exists.
    pub fn top_level_item(&self, row: i32) -> (r: Option<String>)
        ensures
            0 <= row < self.items().len() ==> r is Some && r->0@ == self.items()[row as int],
            !(0 <= row < self.items().len()) ==> r is None,
    {
        if row >= 0 && (row as usize) < self.items.len() {
            Some(self.items[row as usize].clone())
        } else {
            None
        }
    }

    /// Appends a top-level item.
    pub fn add_top_level_item(&mut self, text: &str)
        requires
            old(self).wf(),
            old(self).items().len() < i32::MAX,
        ensures
            final(self).wf(),
            final(self).items() == old(self).items().push(text@),
            final(self).view_state() == old(self).view_state(),
    {
        let ghost before = self.items@;
        self.items.push(text.to_owned());
        assert(texts(self.items@) =~= texts(before).push(text@));
    }

    /// The current item of the view, if any.
    pub fn current_index(&self) -> (r: Option<ItemIndex>)
        ensures
            r == self.view_state().current,
    {
        self.view.current_index()
    }

    /// The tree view.
    pub fn view(&self) -> (r: &TreeView)
        ensures
            r.view()@ == self.view_state(),
    {
        &self.view
    }
}

/// A cell of a table widget that holds an item.
struct TableCell {
    row: i32,
    column: i32,
    text: String,
}

/// The text at (`row`, `column`): the last cell written there, if any.
closed spec fn cell_text(cells: Seq<TableCell>, row: int, column: int) -> Option<Seq<char>>
    decreases cells.len(),
{
    if cells.len() == 0 {
        None
    } else if cells.last().row == row && cells.last().column == column {
        Some(cells.last().text@)
    } else {
        cell_text(cells.drop_last(), row, column)
    }
}

/// The cells other than the one at (`row`, `column`), order kept.
closed spec fn without_cell(cells: Seq<TableCell>, row: int, column: int) -> Seq<TableCell>
    decreases cells.len(),
{
    if cells.len() == 0 {
        cells
    } else {
        let rest = without_cell(cells.drop_last(), row, column);
        if cells.last().row == row && cells.last().column == column {
            rest
        } else {
            rest.push(cells.last())
        }
    }
}

proof fn lemma_without_cell_push(cells: Seq<TableCell>, c: TableCell, row: int, column: int)
    ensures
        without_cell(cells.push(c), row, column) == if c.row == row && c.column == column {
            without_cell(cells, row, column)
        } else {
            without_cell(cells, row, column).push(c)
        },
{
    assert(cells.push(c).drop_last() =~= cells);
}

proof fn lemma_without_cell_text(cells: Seq<TableCell>, row: int, column: int)
    ensures
        forall|r: int, c: int|
            #[trigger] cell_text(without_cell(cells, row, column), r, c) == if r == row && c == column {
                None
            } else {
                cell_text(cells, r, c)
            },
    decreases cells.len(),
{
    if cells.len() > 0 {
        let init = cells.drop_last();
        lemma_without_cell_text(init, row, column);
        let w = without_cell(init, row, column);
        let x = cells.last();
        assert(w.push(x).drop_last() =~= w);
        assert forall|r: int, c: int|
            #[trigger] cell_text(without_cell(cells, row, column), r, c) == if r == row && c == column {
                None
            } else {
                cell_text(cells, r, c)
            } by {
            assert(cell_text(w, r, c) == if r == row && c == column {
                None
            } else {
                cell_text(init, r, c)
            });
            if x.row == row && x.column == column {
                assert(without_cell(cells, row, column) == w);
            } else {
                assert(without_cell(cells, row, column) == w.push(x));
                assert(w.push(x).last() == x);
            }
        }
    }
}

/// A table of cells shown in a table view.
pub struct TableWidget {
    view: TableView,
    rows: i32,
    columns: i32,
    cells: Vec<TableCell>,
}

impl TableWidget {
    /// The number of rows.
    pub closed spec fn spec_row_count(&self) -> int {
        self.rows as int
    }

    /// The number of columns.
    pub closed spec fn spec_column_count(&self) -> int {
        self.columns as int
    }

    /// The text of the item at (`row`, `column`), if one was set there.
    pub closed spec fn spec_item(&self, row: int, column: int) -> Option<Seq<char>> {
        cell_text(self.cells@, row, column)
    }

    /// The state of the table view.
    pub closed spec fn view_state(&self) -> ItemViewState {
        self.view.view()@
    }

    /// Counts are not negative, and the view is sound.
    pub closed spec fn wf(&self) -> bool {
        &&& self.rows >= 0
        &&& self.columns >= 0
        &&& self.view.view().wf()
    }

    /// A table of `rows` by `columns` empty cells (negative counts give none).
    pub fn new(rows: i32, columns: i32) -> (r: Self)
        ensures
            r.wf(),
            r.spec_row_count() == (if rows > 0 {
                rows as int
            } else {
                0
            }),
            r.spec_column_count() == (if columns > 0 {
                columns as int
            } else {
                0
            }),
            forall|i: int, j: int| #[trigger] r.spec_item(i, j) is None,
            r.view_state() == crate::item_view::fresh_item_view(crate::item_view::ViewMode::Table),
    {
        TableWidget {
            view: TableView::new(),
            rows: if rows > 0 {
                rows
            } else {
                0
            },
            columns: if columns > 0 {
                columns
            } else {
                0
            },
            cells: Vec::new(),
        }
    }

    pub fn row_count(&self) -> (r: i32)
        ensures
            r == self.spec_row_count(),
    {
        self.rows
    }

    pub fn column_count(&self) -> (r: i32)
        ensures
            r == self.spec_column_count(),
    {
        self.columns
    }

    /// The model's shape.
    pub fn shape(&self) -> (r: ModelShape)
        requires
            self.wf(),
        ensures
            r == (ModelShape { rows: self.spec_row_count() as i32, columns: self.spec_column_count() as i32 }),
            r.wf(),
    {
        ModelShape { rows: self.rows, columns: self.columns }
    }

    /// Puts an item with `text` at (`row`, `column`); refused outside the table.
    pub fn set_item(&mut self, row: i32, column: i32, text: &str) -> (r: bool)
        requires
            old(self).wf(),
        ensures
            final(self).wf(),
            r == (0 <= row < old(self).spec_row_count() && 0 <= column < old(self).spec_column_count()),
            final(self).spec_row_count() == old(self).spec_row_count(),
            final(self).spec_column_count() == old(self).spec_column_count(),
            forall|i: int, j: int| #[trigger]
                final(self).spec_item(i, j) == if r && i == row && j == column {
                    Some(text@)
                } else {
                    old(self).spec_item(i, j)
                },
            final(self).view_state() == old(self).view_state(),
    {
        if row < 0 || column < 0 || row >= self.rows || column >= self.columns {
            return false;
        }
        let ghost cs = self.cells@;
        let mut kept: Vec<TableCell> = Vec::new();
        let mut k: usize = 0;
        while k < self.cells.len()
            invariant
                0 <= k <= cs.len(),
                self.cells@ == cs,
                kept@ == without_cell(cs.subrange(0, k as int), row as int, column as int),
            decreases cs.len() - k,
        {
            let c = &self.cells[k];
            let copy = TableCell { row: c.row, column: c.column, text: c.text.clone() };
            proof {
                assert(copy == cs[k as int]);
                assert(cs.subrange(0, k + 1) =~= cs.subrange(0, k as int).push(cs[k as int]));
                lemma_without_cell_push(cs.subrange(0, k as int), cs[k as int], row as int, column as int);
            }
            if !(copy.row == row && copy.column == column) {
                kept.push(copy);
            }
            k = k + 1;
        }
        assert(cs.subrange(0, cs.len() as int) =~= cs);
        proof {
            lemma_without_cell_text(cs, row as int, column as int);
        }
        let ghost w = kept@;
        let cell = TableCell { row, column, text: text.to_owned() };
        kept.push(cell);
        assert(kept@.drop_last() =~= w);
        assert(kept@.last() == cell);
        self.cells = kept;
        assert forall|i: int, j: int| #[trigger]
            self.spec_item(i, j) == if i == row && j == column {
                Some(text@)
            } else {
                cell_text(cs, i, j)
            } by {
            assert(cell_text(w, i, j) == if i == row && j == column {
                None
            } else {
                cell_text(cs, i, j)
            });
        }
        true
    }

    /// The text of the item at (`row`, `column`), if one was set there.
    pub fn item(&self, row: i32, column: i32) -> (r: Option<String>)
        ensures
            r matches Some(t) ==> self.spec_item(row as int, column as int) == Some(t@),
            r is None ==> self.spec_item(row as int, column as int) is None,
    {
        let ghost cs = self.cells@;
        let mut k: usize = self.cells.len();
        assert(cs.subrange(0, cs.len() as int) =~= cs);
        while k > 0
            invariant
                0 <= k <= cs.len(),
                self.cells@ == cs,
                cell_text(cs, row as int, column as int) == cell_text(cs.subrange(0, k as int), row as int, column as int),
            decreases k,
        {
            let c = &self.cells[k - 1];
            proof {
                let sub = cs.subrange(0, k as int);
                assert(sub.drop_last() =~= cs.subrange(0, k - 1));
                assert(sub.last() == cs[k - 1]);
            }
            if c.row == row && c.column == column {
                return Some(c.text.clone());
            }
            k = k - 1;
        }
        assert(cs.subrange(0, 0) =~= Seq::<TableCell>::empty());
        None
    }

    /// The current cell of the view, if any.
    pub fn current_index(&self) -> (r: Option<ItemIndex>)
        ensures
            r == self.view_state().current,
    {
        self.view.current_index()
    }

    /// The table view.
    pub fn view(&self) -> (r: &TableView)
        ensures
            r.view()@ == self.view_state(),
    {
        &self.view
    }
}

} // verus!
