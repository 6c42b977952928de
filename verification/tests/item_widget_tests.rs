use qtrs_widgets::geometry::Point;
use qtrs_widgets::item_view::{ItemIndex, ViewMode};
use qtrs_widgets::item_widget::{ListWidget, TableWidget, TreeWidget};

const KEY_DOWN: u32 = 0x0100_0015;
const KEY_END: u32 = 0x0100_0011;

#[test]
fn list_widget_insert_add_remove() {
    let mut l = ListWidget::new();
    assert_eq!(l.count(), 0);
    l.add_item("b");
    assert!(l.insert_item(0, "a"));
    assert!(l.insert_item(2, "c"));
    assert!(!l.insert_item(4, "x"));
    assert!(!l.insert_item(-1, "x"));
    assert_eq!(l.count(), 3);
    assert_eq!(l.item(0), Some("a".to_string()));
    assert_eq!(l.item(1), Some("b".to_string()));
    assert_eq!(l.item(2), Some("c".to_string()));
    assert_eq!(l.item(3), None);
    assert!(l.remove_item(1));
    assert!(!l.remove_item(2));
    assert_eq!(l.item(1), Some("c".to_string()));
    assert_eq!(l.count(), 2);
}

#[test]
fn list_widget_insert_then_remove_restores() {
    let mut l = ListWidget::new();
    l.add_item("one");
    l.add_item("two");
    assert!(l.insert_item(1, "mid"));
    assert!(l.remove_item(1));
    assert_eq!(l.item(0), Some("one".to_string()));
    assert_eq!(l.item(1), Some("two".to_string()));
    assert_eq!(l.count(), 2);
}

#[test]
fn list_widget_drives_its_view() {
    let mut l = ListWidget::new();
    for t in ["a", "b", "c"] {
        l.add_item(t);
    }
    assert_eq!(l.view().view().view_mode(), ViewMode::List);
    l.key_press_event(KEY_DOWN);
    assert_eq!(l.current_index(), Some(ItemIndex::new(1, 0)));
    l.key_press_event(KEY_END);
    assert_eq!(l.current_index(), Some(ItemIndex::new(2, 0)));
    assert_eq!(l.mouse_press_event(Point::new(3, 3), 1, 0), Some(ItemIndex::new(0, 0)));
    assert_eq!(l.mouse_press_event(Point::new(3, 100), 1, 0), None);
    assert_eq!(l.current_index(), Some(ItemIndex::new(0, 0)));
    l.wheel_event(-120);
    assert_eq!(l.view().view().vertical_offset(), 0);
}

#[test]
fn tree_widget_top_level_items() {
    let mut t = TreeWidget::new();
    assert_eq!(t.top_level_count(), 0);
    t.add_top_level_item("root");
    t.add_top_level_item("other");
    assert_eq!(t.top_level_count(), 2);
    assert_eq!(t.top_level_item(1), Some("other".to_string()));
    assert_eq!(t.top_level_item(2), None);
    assert_eq!(t.current_index(), None);
    assert_eq!(t.view().view().view_mode(), ViewMode::Tree);
}

#[test]
fn table_widget_cells() {
    let mut t = TableWidget::new(2, 3);
    assert_eq!(t.row_count(), 2);
    assert_eq!(t.column_count(), 3);
    assert_eq!(t.item(0, 0), None);
    assert!(t.set_item(1, 2, "x"));
    assert!(!t.set_item(2, 0, "y"));
    assert!(!t.set_item(0, 3, "y"));
    assert!(!t.set_item(-1, 0, "y"));
    assert_eq!(t.item(1, 2), Some("x".to_string()));
    assert!(t.set_item(1, 2, "z"));
    assert_eq!(t.item(1, 2), Some("z".to_string()));
    assert!(t.set_item(0, 0, "a"));
    assert_eq!(t.item(0, 0), Some("a".to_string()));
    assert_eq!(t.item(1, 2), Some("z".to_string()));
    assert_eq!(t.view().view().view_mode(), ViewMode::Table);
}

#[test]
fn table_widget_negative_sizes_are_empty() {
    let t = TableWidget::new(-3, 0);
    assert_eq!(t.row_count(), 0);
    assert_eq!(t.column_count(), 0);
    let s = t.shape();
    assert_eq!((s.rows, s.columns), (0, 0));
}
