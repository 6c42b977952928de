use qtrs_widgets::geometry::{Point, Rect, Size};
use qtrs_widgets::item_view::{
    AbstractItemView, ColumnView, DataWidgetMapper, HeaderView, ItemIndex, ListView, ModelShape,
    TableView, TreeView, ViewMode,
};

const KEY_UP: u32 = 0x0100_0013;
const KEY_DOWN: u32 = 0x0100_0015;
const KEY_HOME: u32 = 0x0100_0010;
const KEY_END: u32 = 0x0100_0011;
const KEY_RETURN: u32 = 0x0100_0004;
const CTRL: u32 = 0x0400_0000;

fn idx(row: i32, column: i32) -> ItemIndex {
    ItemIndex::new(row, column)
}

#[test]
fn fresh_view_defaults() {
    let v = AbstractItemView::new();
    assert_eq!(v.view_mode(), ViewMode::List);
    assert_eq!(v.row_height(), 24);
    assert_eq!(v.vertical_offset(), 0);
    assert_eq!(v.geometry(), Rect::new(0, 0, 320, 240));
    assert_eq!(v.current_index(), None);
    assert!(v.is_enabled());
    assert!(!v.has_focus());
    assert_eq!(v.size_hint(), Size::new(320, 240));
    assert_eq!(ViewMode::default(), ViewMode::List);
}

#[test]
fn list_index_at_rows_and_bounds() {
    let v = AbstractItemView::new();
    let shape = ModelShape::new(5, 1);
    assert_eq!(v.index_at(Point::new(10, 30), shape), Some(idx(1, 0)));
    assert_eq!(v.index_at(Point::new(10, 0), shape), Some(idx(0, 0)));
    // Row 6 does not exist in a five-row model.
    assert_eq!(v.index_at(Point::new(10, 150), shape), None);
    assert_eq!(v.index_at(Point::new(-1, 30), shape), None);
    assert_eq!(v.index_at(Point::new(320, 30), shape), None);
    assert_eq!(v.index_at(Point::new(10, 240), shape), None);
}

#[test]
fn table_index_at_skips_header_and_splits_columns() {
    let v = AbstractItemView::with_mode(ViewMode::Table);
    let shape = ModelShape::new(10, 2);
    assert_eq!(v.index_at(Point::new(10, 10), shape), None);
    assert_eq!(v.index_at(Point::new(10, 30), shape), Some(idx(0, 0)));
    assert_eq!(v.index_at(Point::new(200, 50), shape), Some(idx(1, 1)));
    assert_eq!(v.index_at(Point::new(319, 30), shape), Some(idx(0, 1)));
}

#[test]
fn vertical_offset_is_clamped_to_last_page() {
    let mut v = AbstractItemView::new();
    let shape = ModelShape::new(100, 1);
    // 240 / 24 = 10 rows per page, so the last page starts at row 90.
    v.set_vertical_offset(95, shape);
    assert_eq!(v.vertical_offset(), 90);
    v.set_vertical_offset(-5, shape);
    assert_eq!(v.vertical_offset(), 0);
    v.set_vertical_offset(42, shape);
    assert_eq!(v.vertical_offset(), 42);
    let small = ModelShape::new(4, 1);
    v.set_vertical_offset(3, small);
    assert_eq!(v.vertical_offset(), 0);
}

#[test]
fn offset_counts_in_index_at() {
    let mut v = AbstractItemView::new();
    let shape = ModelShape::new(100, 1);
    v.set_vertical_offset(20, shape);
    assert_eq!(v.index_at(Point::new(5, 30), shape), Some(idx(21, 0)));
}

#[test]
fn keys_move_current_and_scroll() {
    let mut v = AbstractItemView::new();
    let shape = ModelShape::new(100, 1);
    assert_eq!(v.key_press_event(KEY_DOWN, shape), None);
    assert_eq!(v.current_index(), Some(idx(1, 0)));
    assert!(v.is_selected(idx(1, 0)));
    v.key_press_event(KEY_END, shape);
    assert_eq!(v.current_index(), Some(idx(99, 0)));
    assert_eq!(v.vertical_offset(), 90);
    v.key_press_event(KEY_DOWN, shape);
    assert_eq!(v.current_index(), Some(idx(99, 0)));
    v.key_press_event(KEY_UP, shape);
    assert_eq!(v.current_index(), Some(idx(98, 0)));
    v.key_press_event(KEY_HOME, shape);
    assert_eq!(v.current_index(), Some(idx(0, 0)));
    assert_eq!(v.vertical_offset(), 0);
    assert_eq!(v.key_press_event(KEY_RETURN, shape), Some(idx(0, 0)));
    assert_eq!(v.selected_indexes(), vec![idx(0, 0)]);
}

#[test]
fn keys_in_empty_model_do_nothing() {
    let mut v = AbstractItemView::new();
    let shape = ModelShape::new(0, 1);
    v.key_press_event(KEY_DOWN, shape);
    assert_eq!(v.current_index(), None);
    assert_eq!(v.key_press_event(KEY_RETURN, shape), None);
}

#[test]
fn set_current_index_scrolls_into_view() {
    let mut v = AbstractItemView::new();
    let shape = ModelShape::new(100, 1);
    v.set_current_index(idx(50, 0), shape);
    assert_eq!(v.current_index(), Some(idx(50, 0)));
    // Below the page: it becomes the last visible row.
    assert_eq!(v.vertical_offset(), 41);
    v.set_current_index(idx(10, 0), shape);
    assert_eq!(v.vertical_offset(), 10);
    v.set_current_index(idx(-1, 0), shape);
    assert_eq!(v.current_index(), None);
    assert!(v.selected_indexes().is_empty());
    assert_eq!(v.vertical_offset(), 10);
}

#[test]
fn scroll_to_moves_only_the_offset() {
    let mut v = AbstractItemView::new();
    let shape = ModelShape::new(100, 1);
    v.scroll_to(idx(30, 0), shape);
    assert_eq!(v.vertical_offset(), 21);
    assert_eq!(v.current_index(), None);
}

#[test]
fn click_selects_and_ctrl_click_toggles() {
    let mut v = AbstractItemView::new();
    let shape = ModelShape::new(10, 1);
    assert_eq!(v.mouse_press_event(Point::new(5, 5), 1, 0, shape), Some(idx(0, 0)));
    assert!(v.has_focus());
    assert_eq!(v.selected_indexes(), vec![idx(0, 0)]);
    v.mouse_press_event(Point::new(5, 50), 1, CTRL, shape);
    assert_eq!(v.current_index(), Some(idx(2, 0)));
    assert!(v.is_selected(idx(0, 0)));
    assert!(v.is_selected(idx(2, 0)));
    v.mouse_press_event(Point::new(5, 5), 1, CTRL, shape);
    assert!(!v.is_selected(idx(0, 0)));
    assert!(v.is_selected(idx(2, 0)));
    v.mouse_press_event(Point::new(5, 5), 1, CTRL, shape);
    assert!(v.is_selected(idx(0, 0)));
    v.mouse_press_event(Point::new(5, 75), 1, 0, shape);
    assert_eq!(v.selected_indexes(), vec![idx(3, 0)]);
}

#[test]
fn click_ignored_for_other_buttons_disabled_or_empty_space() {
    let mut v = AbstractItemView::new();
    let shape = ModelShape::new(2, 1);
    assert_eq!(v.mouse_press_event(Point::new(5, 5), 2, 0, shape), None);
    assert_eq!(v.mouse_press_event(Point::new(5, 200), 1, 0, shape), None);
    assert_eq!(v.current_index(), None);
    assert!(!v.has_focus());
    v.set_enabled(false);
    assert_eq!(v.mouse_press_event(Point::new(5, 5), 1, 0, shape), None);
    assert_eq!(v.current_index(), None);
}

#[test]
fn double_click_reports_item() {
    let v = AbstractItemView::new();
    let shape = ModelShape::new(3, 1);
    assert_eq!(v.mouse_double_click_event(Point::new(5, 30), 1, shape), Some(idx(1, 0)));
    assert_eq!(v.mouse_double_click_event(Point::new(5, 30), 2, shape), None);
}

#[test]
fn wheel_scrolls_three_rows() {
    let mut v = AbstractItemView::new();
    let shape = ModelShape::new(100, 1);
    v.wheel_event(-120, shape);
    assert_eq!(v.vertical_offset(), 3);
    v.wheel_event(-120, shape);
    assert_eq!(v.vertical_offset(), 6);
    v.wheel_event(120, shape);
    assert_eq!(v.vertical_offset(), 3);
    v.wheel_event(120, shape);
    v.wheel_event(120, shape);
    assert_eq!(v.vertical_offset(), 0);
    v.wheel_event(0, shape);
    assert_eq!(v.vertical_offset(), 0);
}

#[test]
fn row_height_and_mode_setters() {
    let mut v = AbstractItemView::new();
    v.set_row_height(0);
    assert_eq!(v.row_height(), 24);
    v.set_row_height(30);
    assert_eq!(v.row_height(), 30);
    v.set_view_mode(ViewMode::Table);
    assert_eq!(v.view_mode(), ViewMode::Table);
    v.set_geometry(Rect::new(0, 0, 100, 84));
    // (84 - 24) / 30 = 2 rows per page.
    let shape = ModelShape::new(10, 1);
    v.set_vertical_offset(100, shape);
    assert_eq!(v.vertical_offset(), 8);
}

#[test]
fn set_model_resets_view() {
    let mut v = AbstractItemView::new();
    let shape = ModelShape::new(100, 1);
    v.set_current_index(idx(50, 0), shape);
    v.set_model();
    assert_eq!(v.vertical_offset(), 0);
    assert_eq!(v.current_index(), None);
    assert!(v.selected_indexes().is_empty());
}

#[test]
fn tree_moves_by_display_row() {
    let mut t = TreeView::new();
    let shape = ModelShape::new(4, 3);
    t.view_mut().key_press_event(KEY_END, shape);
    assert_eq!(t.current_index(), Some(idx(3, 0)));
    t.view_mut().key_press_event(KEY_UP, shape);
    assert_eq!(t.current_index(), Some(idx(2, 0)));
    assert_eq!(t.view().view_mode(), ViewMode::Tree);
}

#[test]
fn wrapper_views_carry_their_mode() {
    let mut l = ListView::new();
    let shape = ModelShape::new(10, 1);
    l.set_current_index(idx(4, 0), shape);
    assert_eq!(l.current_index(), Some(idx(4, 0)));
    assert_eq!(l.view().view_mode(), ViewMode::List);
    assert_eq!(TableView::new().view().view_mode(), ViewMode::Table);
    assert_eq!(ColumnView::new().view().view_mode(), ViewMode::Column);
}

#[test]
fn header_view_labels_and_clicks() {
    let mut h = HeaderView::new();
    assert_eq!(h.count(), 0);
    h.set_labels(vec!["Name".to_string(), "Size".to_string()]);
    assert_eq!(h.count(), 2);
    assert_eq!(h.label(1), Some("Size".to_string()));
    assert_eq!(h.label(2), None);
    assert_eq!(h.click_section(0), Some(0));
    assert_eq!(h.click_section(2), None);
    assert_eq!(h.click_section(-1), None);
}

#[test]
fn data_widget_mapper_tracks_row_and_column() {
    let mut m = DataWidgetMapper::new();
    let shape = ModelShape::new(3, 2);
    assert_eq!(m.current_index(), -1);
    m.set_current_index(1, shape);
    assert_eq!(m.current_index(), -1);
    assert_eq!(m.current_data_index(shape), None);
    m.set_model();
    m.set_current_index(1, shape);
    assert_eq!(m.current_index(), 1);
    m.set_current_index(3, shape);
    assert_eq!(m.current_index(), 1);
    m.set_mapped_column(-4);
    assert_eq!(m.mapped_column(), 0);
    assert_eq!(m.current_data_index(shape), Some(idx(1, 0)));
    m.set_mapped_column(2);
    assert_eq!(m.current_data_index(shape), None);
}

use qtrs_widgets::item_view::{ItemPaintOp, RowShade};

fn cell(row: i32, column: i32, x: i32, y: i32, selected: bool) -> ItemPaintOp {
    ItemPaintOp::CellText { row, column, text_at: Point::new(x, y), selected }
}

#[test]
fn list_view_paints_a_page_of_rows() {
    let mut v = AbstractItemView::with_mode(ViewMode::List);
    v.set_geometry(Rect::new(0, 0, 100, 60));
    let shape = ModelShape::new(5, 1);
    v.mouse_press_event(Point::new(5, 30), 1, 0, shape);
    let ops = v.paint_ops(shape, &[]);
    assert_eq!(
        ops,
        vec![
            ItemPaintOp::Frame { width: 100, height: 60 },
            ItemPaintOp::RowBackground { rect: Rect::new(1, 0, 98, 24), shade: RowShade::Plain },
            cell(0, 0, 6, 18, false),
            ItemPaintOp::RowBackground { rect: Rect::new(1, 24, 98, 24), shade: RowShade::Selected },
            cell(1, 0, 6, 42, true),
        ]
    );
}

#[test]
fn table_view_paints_header_cells_and_grid() {
    let mut v = AbstractItemView::with_mode(ViewMode::Table);
    v.set_geometry(Rect::new(0, 0, 200, 72));
    let ops = v.paint_ops(ModelShape::new(3, 2), &[]);
    assert_eq!(
        ops,
        vec![
            ItemPaintOp::Frame { width: 200, height: 72 },
            ItemPaintOp::HeaderCell { rect: Rect::new(0, 0, 100, 24), column: 0, text_at: Point::new(6, 17) },
            ItemPaintOp::HeaderCell { rect: Rect::new(100, 0, 100, 24), column: 1, text_at: Point::new(106, 17) },
            ItemPaintOp::RowBackground { rect: Rect::new(1, 24, 198, 24), shade: RowShade::Plain },
            cell(0, 0, 6, 42, false),
            ItemPaintOp::GridLine { x: 0, top: 24, bottom: 48 },
            cell(0, 1, 106, 42, false),
            ItemPaintOp::GridLine { x: 100, top: 24, bottom: 48 },
            ItemPaintOp::RowBackground { rect: Rect::new(1, 48, 198, 24), shade: RowShade::Alternate },
            cell(1, 0, 6, 66, false),
            ItemPaintOp::GridLine { x: 0, top: 48, bottom: 72 },
            cell(1, 1, 106, 66, false),
            ItemPaintOp::GridLine { x: 100, top: 48, bottom: 72 },
        ]
    );
}

#[test]
fn tree_view_indents_by_depth() {
    let mut v = AbstractItemView::with_mode(ViewMode::Tree);
    v.set_geometry(Rect::new(0, 0, 100, 100));
    let ops = v.paint_ops(ModelShape::new(3, 1), &[0, 1, 2]);
    assert_eq!(ops.len(), 7);
    assert_eq!(ops[2], cell(0, 0, 6, 18, false));
    assert_eq!(ops[4], cell(1, 0, 24, 42, false));
    assert_eq!(ops[6], cell(2, 0, 42, 66, false));
}

#[test]
fn view_without_columns_paints_no_text() {
    let mut v = AbstractItemView::with_mode(ViewMode::List);
    v.set_geometry(Rect::new(0, 0, 100, 48));
    let ops = v.paint_ops(ModelShape::new(4, 0), &[]);
    assert_eq!(
        ops,
        vec![
            ItemPaintOp::Frame { width: 100, height: 48 },
            ItemPaintOp::RowBackground { rect: Rect::new(1, 0, 98, 24), shade: RowShade::Plain },
            ItemPaintOp::RowBackground { rect: Rect::new(1, 24, 98, 24), shade: RowShade::Alternate },
        ]
    );
}
