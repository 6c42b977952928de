use qtrs_widgets::combo_box::{ComboBox, InsertPolicy, MatchFlags};
use qtrs_widgets::geometry::{Point, Rect};

const KEY_UP: u32 = 0x0100_0013;
const KEY_DOWN: u32 = 0x0100_0015;
const KEY_HOME: u32 = 0x0100_0010;
const KEY_END: u32 = 0x0100_0011;
const KEY_RETURN: u32 = 0x0100_0004;
const KEY_ESCAPE: u32 = 0x0100_0000;
const KEY_SPACE: u32 = 0x20;
const ALT: u32 = 0x0800_0000;

fn fruit() -> ComboBox {
    let mut c = ComboBox::new();
    c.add_item("Apple");
    c.add_item("Banana");
    c.add_item("Cherry");
    c
}

#[test]
fn combo_first_item_becomes_current() {
    let mut c = ComboBox::new();
    assert_eq!(c.current_index(), -1);
    assert_eq!(c.current_text(), "");
    c.add_item("one");
    assert_eq!(c.current_index(), 0);
    c.add_item("two");
    assert_eq!(c.current_index(), 0);
    assert_eq!(c.count(), 2);
    assert_eq!(c.item_text(1), "two");
    assert_eq!(c.item_text(5), "");
}

#[test]
fn combo_insert_before_current_moves_it() {
    let mut c = fruit();
    c.set_current_index(1);
    c.insert_item(0, "Apricot", Some(7));
    assert_eq!(c.current_index(), 2);
    assert_eq!(c.current_text(), "Banana");
    assert_eq!(c.item_data(0), Some(7));
    assert_eq!(c.find_data(Some(7)), 0);
    assert_eq!(c.find_data(Some(8)), -1);
    c.insert_item(99, "Zucchini", None);
    assert_eq!(c.item_text(4), "Zucchini");
    c.insert_item(-3, "Aardvark", None);
    assert_eq!(c.item_text(0), "Aardvark");
}

#[test]
fn combo_remove_current_moves_to_nearest() {
    let mut c = fruit();
    c.set_current_index(2);
    c.remove_item(2);
    assert_eq!(c.current_index(), 1);
    assert_eq!(c.current_text(), "Banana");
    c.remove_item(0);
    assert_eq!(c.current_index(), 0);
    c.remove_item(7);
    assert_eq!(c.count(), 1);
    c.remove_item(0);
    assert_eq!(c.current_index(), -1);
    assert_eq!(c.count(), 0);
}

#[test]
fn combo_clear_resets() {
    let mut c = fruit();
    c.show_popup();
    c.clear();
    assert_eq!(c.count(), 0);
    assert_eq!(c.current_index(), -1);
    assert!(!c.is_popup_visible());
    assert_eq!(c.highlighted_index(), -1);
}

#[test]
fn combo_find_text_flags() {
    let c = fruit();
    assert_eq!(c.find_text("banana", MatchFlags::fixed_string()), 1);
    assert_eq!(c.find_text("banana", MatchFlags::default()), -1);
    assert_eq!(c.find_text("Banana", MatchFlags::default()), 1);
    assert_eq!(c.find_text("err", MatchFlags::containing()), 2);
    assert_eq!(c.find_text("ch", MatchFlags::starting_with()), 2);
    assert_eq!(c.find_text("NA", MatchFlags::ending_with()), 1);
    assert_eq!(
        c.find_text("NA", MatchFlags::ending_with() | MatchFlags::case_sensitive()),
        -1
    );
}

#[test]
fn combo_set_current_text_selects_exact_item() {
    let mut c = fruit();
    c.set_current_text("Cherry");
    assert_eq!(c.current_index(), 2);
    c.set_current_text("cherry");
    assert_eq!(c.current_index(), 2);
    c.set_current_index(9);
    assert_eq!(c.current_index(), -1);
}

#[test]
fn combo_max_count_truncates_and_blocks_inserts() {
    let mut c = fruit();
    c.set_current_index(2);
    c.set_max_count(2);
    assert_eq!(c.count(), 2);
    assert_eq!(c.current_index(), 1);
    c.add_item("Date");
    assert_eq!(c.count(), 2);
    assert_eq!(c.max_count(), 2);
}

#[test]
fn combo_editable_follows_current_item() {
    let mut c = fruit();
    c.set_editable(true);
    assert!(c.is_editable());
    assert_eq!(c.edit_text(), "Apple");
    c.set_current_index(2);
    assert_eq!(c.edit_text(), "Cherry");
    c.set_edit_text("typed");
    assert_eq!(c.current_text(), "typed");
    assert_eq!(c.current_index(), 2);
}

#[test]
fn combo_commit_inserts_at_bottom() {
    let mut c = fruit();
    c.set_editable(true);
    c.set_edit_text("Date");
    let r = c.key_press_event(KEY_RETURN, 0, false);
    assert_eq!(r.activated, Some(3));
    assert_eq!(c.count(), 4);
    assert_eq!(c.item_text(3), "Date");
    assert_eq!(c.current_index(), 3);
}

#[test]
fn combo_commit_existing_text_selects_it() {
    let mut c = fruit();
    c.set_editable(true);
    c.set_edit_text("cherry");
    assert_eq!(c.commit_edit_text(), Some(2));
    assert_eq!(c.count(), 3);
    assert_eq!(c.current_index(), 2);
    assert_eq!(c.edit_text(), "Cherry");
}

#[test]
fn combo_commit_alphabetically() {
    let mut c = fruit();
    c.set_editable(true);
    c.set_insert_policy(InsertPolicy::InsertAlphabetically);
    c.set_edit_text("blueberry");
    assert_eq!(c.commit_edit_text(), Some(2));
    assert_eq!(c.item_text(2), "blueberry");
    assert_eq!(c.item_text(3), "Cherry");
}

#[test]
fn combo_commit_at_current_replaces_text() {
    let mut c = fruit();
    c.set_editable(true);
    c.set_current_index(1);
    c.set_insert_policy(InsertPolicy::InsertAtCurrent);
    c.set_edit_text("Blackberry");
    assert_eq!(c.commit_edit_text(), Some(1));
    assert_eq!(c.count(), 3);
    assert_eq!(c.item_text(1), "Blackberry");
}

#[test]
fn combo_commit_no_insert_and_empty_text() {
    let mut c = fruit();
    c.set_editable(true);
    c.set_insert_policy(InsertPolicy::NoInsert);
    c.set_edit_text("Kiwi");
    assert_eq!(c.commit_edit_text(), Some(0));
    assert_eq!(c.count(), 3);
    c.set_edit_text("");
    assert_eq!(c.commit_edit_text(), None);
}

#[test]
fn combo_commit_duplicates_allowed_inserts_copy() {
    let mut c = fruit();
    c.set_editable(true);
    c.set_duplicates_enabled(true);
    c.set_insert_policy(InsertPolicy::InsertAtTop);
    c.set_edit_text("Cherry");
    assert_eq!(c.commit_edit_text(), Some(0));
    assert_eq!(c.count(), 4);
    assert_eq!(c.item_text(0), "Cherry");
}

#[test]
fn combo_arrow_keys_skip_disabled_items() {
    let mut c = fruit();
    c.set_item_enabled(1, false);
    let r = c.key_press_event(KEY_DOWN, 0, false);
    assert_eq!(r.activated, Some(2));
    assert_eq!(c.current_index(), 2);
    let r = c.key_press_event(KEY_DOWN, 0, false);
    assert_eq!(r.activated, None);
    let r = c.key_press_event(KEY_UP, 0, false);
    assert_eq!(r.activated, Some(0));
    c.key_press_event(KEY_END, 0, false);
    assert_eq!(c.current_index(), 2);
    c.key_press_event(KEY_HOME, 0, false);
    assert_eq!(c.current_index(), 0);
}

#[test]
fn combo_disabled_ignores_keys() {
    let mut c = fruit();
    c.set_enabled(false);
    let r = c.key_press_event(KEY_DOWN, 0, false);
    assert_eq!(r.activated, None);
    assert_eq!(c.current_index(), 0);
}

#[test]
fn combo_type_ahead_search() {
    let mut c = ComboBox::new();
    c.add_item("Alpha");
    c.add_item("beta");
    c.add_item("Bravo");
    c.add_item("Charlie");
    let r = c.key_press_event(0x42, 0, false);
    assert_eq!(r.activated, Some(1));
    // Repeating the letter cycles through the items starting with it.
    let r = c.key_press_event(0x42, 0, true);
    assert_eq!(r.activated, Some(2));
    let r = c.key_press_event(0x42, 0, true);
    assert_eq!(r.activated, Some(1));
    // A new search starts over.
    assert_eq!(c.keyboard_search('c', false), Some(3));
    assert_eq!(c.keyboard_search('z', false), None);
    assert_eq!(c.current_index(), 3);
}

#[test]
fn combo_type_ahead_prefix() {
    let mut c = ComboBox::new();
    c.add_item("bat");
    c.add_item("bee");
    c.add_item("bell");
    assert_eq!(c.keyboard_search('b', false), Some(1));
    assert_eq!(c.keyboard_search('e', true), None);
    assert_eq!(c.current_index(), 1);
    assert_eq!(c.keyboard_search('l', true), Some(2));
}

#[test]
fn combo_popup_opens_on_alt_down_and_space() {
    let mut c = fruit();
    c.set_current_index(1);
    c.key_press_event(KEY_DOWN, ALT, false);
    assert!(c.is_popup_visible());
    assert_eq!(c.highlighted_index(), 1);
    c.key_press_event(KEY_ESCAPE, 0, false);
    assert!(!c.is_popup_visible());
    assert_eq!(c.current_index(), 1);
    c.key_press_event(KEY_SPACE, 0, false);
    assert!(c.is_popup_visible());
}

#[test]
fn combo_popup_navigation_and_choice() {
    let mut c = fruit();
    c.show_popup();
    assert_eq!(c.highlighted_index(), 0);
    assert_eq!(c.popup_key(KEY_DOWN, 0), None);
    assert_eq!(c.highlighted_index(), 1);
    assert_eq!(c.popup_key(KEY_END, 0), None);
    assert_eq!(c.highlighted_index(), 2);
    assert_eq!(c.popup_key(KEY_DOWN, 0), None);
    assert_eq!(c.highlighted_index(), 2);
    let r = c.key_press_event(KEY_RETURN, 0, false);
    assert_eq!(r.activated, Some(2));
    assert!(!c.is_popup_visible());
    assert_eq!(c.current_index(), 2);
}

#[test]
fn combo_popup_scrolls_to_highlight() {
    let mut c = ComboBox::new();
    let names = ["a", "b", "c", "d", "e", "f"];
    for n in names.iter() {
        c.add_item(n);
    }
    c.set_max_visible_items(3);
    c.show_popup();
    assert_eq!(c.popup_visible_rows(), 3);
    c.popup_key(KEY_END, 0);
    assert_eq!(c.highlighted_index(), 5);
    assert_eq!(c.popup_scroll(), 3);
    c.popup_key(KEY_HOME, 0);
    assert_eq!(c.popup_scroll(), 0);
    assert_eq!(c.wheel_event(-120), None);
    assert_eq!(c.popup_scroll(), 3);
    c.wheel_event(120);
    assert_eq!(c.popup_scroll(), 0);
}

#[test]
fn combo_wheel_steps_current() {
    let mut c = fruit();
    assert_eq!(c.wheel_event(-120), Some(1));
    assert_eq!(c.wheel_event(120), Some(0));
    assert_eq!(c.wheel_event(120), None);
    assert_eq!(c.wheel_event(0), None);
}

#[test]
fn combo_popup_geometry() {
    let mut c = fruit();
    c.show_popup();
    assert_eq!(c.popup_rect(100, 24, 20), Rect::new(0, 24, 100, 62));
    assert_eq!(c.popup_item_at(Point::new(10, 24), 100, 24, 20), 0);
    assert_eq!(c.popup_item_at(Point::new(10, 45), 100, 24, 20), 1);
    assert_eq!(c.popup_item_at(Point::new(10, 84), 100, 24, 20), 2);
    assert_eq!(c.popup_item_at(Point::new(10, 85), 100, 24, 20), -1);
    assert_eq!(c.popup_item_at(Point::new(10, 86), 100, 24, 20), -1);
    assert_eq!(c.popup_item_at(Point::new(10, 10), 100, 24, 20), -1);
}

#[test]
fn combo_mouse_opens_and_chooses() {
    let mut c = fruit();
    let r = c.mouse_press_event(Point::new(50, 10), 1, 100, 24, 20);
    assert_eq!(r.activated, None);
    assert!(c.is_popup_visible());
    c.mouse_move_event(Point::new(10, 50), 100, 24, 20);
    assert_eq!(c.highlighted_index(), 1);
    let r = c.mouse_press_event(Point::new(10, 70), 1, 100, 24, 20);
    assert_eq!(r.activated, Some(2));
    assert!(!c.is_popup_visible());
    assert_eq!(c.current_index(), 2);
}

#[test]
fn combo_mouse_click_outside_closes_popup() {
    let mut c = fruit();
    c.show_popup();
    let r = c.mouse_press_event(Point::new(500, 500), 1, 100, 24, 20);
    assert_eq!(r.activated, None);
    assert!(!c.is_popup_visible());
    let r = c.mouse_press_event(Point::new(50, 10), 2, 100, 24, 20);
    assert_eq!(r.activated, None);
    assert!(!c.is_popup_visible());
}

#[test]
fn combo_editable_click_goes_to_line_edit() {
    let mut c = fruit();
    c.set_editable(true);
    let r = c.mouse_press_event(Point::new(10, 10), 1, 100, 24, 20);
    assert!(r.to_line_edit);
    assert!(!c.is_popup_visible());
    let r = c.mouse_press_event(Point::new(90, 10), 1, 100, 24, 20);
    assert!(!r.to_line_edit);
    assert!(c.is_popup_visible());
}

#[test]
fn combo_focus_out_closes_popup() {
    let mut c = fruit();
    c.show_popup();
    c.focus_out_event(true);
    assert!(c.is_popup_visible());
    c.focus_out_event(false);
    assert!(!c.is_popup_visible());
}

#[test]
fn combo_disabled_item_cannot_be_chosen() {
    let mut c = fruit();
    c.set_item_enabled(2, false);
    assert!(!c.is_item_enabled(2));
    c.show_popup();
    let r = c.mouse_press_event(Point::new(10, 70), 1, 100, 24, 20);
    assert_eq!(r.activated, None);
    assert!(c.is_popup_visible());
    assert_eq!(c.current_index(), 0);
}

#[test]
fn insert_items_in_order_and_limit() {
    let mut c = ComboBox::new();
    let abc: Vec<String> = vec!["a".to_string(), "b".to_string(), "c".to_string()];
    c.add_items(&abc);
    assert_eq!(c.count(), 3);
    assert_eq!(c.current_index(), 0);
    c.insert_items(1, &["x".to_string(), "y".to_string()]);
    assert_eq!(c.item_text(1), "x");
    assert_eq!(c.item_text(2), "y");
    assert_eq!(c.item_text(3), "b");
    assert_eq!(c.current_index(), 0);
    c.insert_items(-4, &["z".to_string()]);
    assert_eq!(c.item_text(0), "z");
    assert_eq!(c.current_index(), 1);
    assert_eq!(c.current_text(), "a");
    c.set_max_count(7);
    c.insert_items(100, &abc);
    assert_eq!(c.count(), 7);
    assert_eq!(c.item_text(6), "a");
    c.insert_items(0, &abc);
    assert_eq!(c.count(), 7);
    c.insert_items(0, &[]);
    assert_eq!(c.count(), 7);
}
