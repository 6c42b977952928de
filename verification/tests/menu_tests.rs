use qtrs_widgets::action::ActionSet;
use qtrs_widgets::geometry::{Point, Rect, Size};
use qtrs_widgets::menu::{Menu, MenuEntry, MenuOutcome};

const KEY_UP: u32 = 0x0100_0013;
const KEY_DOWN: u32 = 0x0100_0015;
const KEY_LEFT: u32 = 0x0100_0012;
const KEY_RIGHT: u32 = 0x0100_0014;
const KEY_HOME: u32 = 0x0100_0010;
const KEY_END: u32 = 0x0100_0011;
const KEY_RETURN: u32 = 0x0100_0004;
const KEY_ESCAPE: u32 = 0x0100_0000;

/// A menu "&Open", separator, "&Save", "Save &As" (disabled), "E&xport" (sub-menu 9).
fn file_menu(set: &mut ActionSet) -> Menu {
    let mut m = Menu::new("File");
    m.add_new_action(set, "&Open");
    m.add_separator(set);
    m.add_new_action(set, "&Save");
    let save_as = m.add_new_action(set, "Save &As");
    set.set_enabled(save_as, false);
    let export = set.add_action("E&xport");
    m.add_menu_action(export, 9);
    m
}

#[test]
fn menu_entries_add_move_insert_remove() {
    let mut set = ActionSet::new();
    let a = set.add_action("a");
    let b = set.add_action("b");
    let c = set.add_action("c");
    let mut m = Menu::new("m");
    assert!(m.is_empty());
    assert!(!m.is_visible());
    assert_eq!(m.geometry(), Rect::new(0, 0, 120, 8));
    m.add_action(a);
    m.add_action(b);
    m.add_action(a);
    assert_eq!(m.actions(), vec![b, a]);
    m.insert_action(0, c);
    assert_eq!(m.actions(), vec![c, b, a]);
    m.insert_action(99, c);
    assert_eq!(m.actions(), vec![b, a, c]);
    m.set_active_action(Some(c));
    assert_eq!(m.active_action(), Some(c));
    m.remove_action(a);
    assert_eq!(m.actions(), vec![b, c]);
    assert_eq!(m.active_index(), Some(1));
    m.remove_action(c);
    assert_eq!(m.active_action(), None);
    m.clear();
    assert!(m.is_empty());
}

#[test]
fn menu_keyboard_skips_separators_and_disabled() {
    let mut set = ActionSet::new();
    let mut m = file_menu(&mut set);
    m.show_with_geometry(Rect::new(0, 0, 150, 100));
    assert_eq!(m.handle_key(&set, KEY_DOWN, 0), MenuOutcome::Handled);
    assert_eq!(m.active_index(), Some(0));
    m.handle_key(&set, KEY_DOWN, 0);
    assert_eq!(m.active_index(), Some(2));
    m.handle_key(&set, KEY_DOWN, 0);
    assert_eq!(m.active_index(), Some(4));
    m.handle_key(&set, KEY_DOWN, 0);
    assert_eq!(m.active_index(), Some(0));
    m.handle_key(&set, KEY_UP, 0);
    assert_eq!(m.active_index(), Some(4));
    m.handle_key(&set, KEY_HOME, 0);
    assert_eq!(m.active_index(), Some(0));
    m.handle_key(&set, KEY_END, 0);
    assert_eq!(m.active_index(), Some(4));
    assert_eq!(m.handle_key(&set, KEY_LEFT, 0), MenuOutcome::NavigateLeft);
    assert_eq!(m.handle_key(&set, KEY_RIGHT, 0), MenuOutcome::OpenSubmenu(4, true));
    assert_eq!(m.handle_key(&set, KEY_HOME, 0), MenuOutcome::Handled);
    assert_eq!(m.handle_key(&set, KEY_RIGHT, 0), MenuOutcome::NavigateRight);
}

#[test]
fn menu_return_activates_and_escape_closes() {
    let mut set = ActionSet::new();
    let mut m = file_menu(&mut set);
    m.show_with_geometry(Rect::new(0, 0, 150, 100));
    m.handle_key(&set, KEY_DOWN, 0);
    m.handle_key(&set, KEY_DOWN, 0);
    assert_eq!(m.handle_key(&set, KEY_RETURN, 0), MenuOutcome::Activate(2));
    assert!(!m.is_visible());
    assert_eq!(m.last_triggered_action(), Some(2));
    m.show_with_geometry(Rect::new(0, 0, 150, 100));
    assert_eq!(m.handle_key(&set, KEY_RETURN, 0), MenuOutcome::Handled);
    assert_eq!(m.handle_key(&set, KEY_ESCAPE, 0), MenuOutcome::Closed);
    assert!(!m.is_visible());
}

#[test]
fn menu_mnemonics() {
    let mut set = ActionSet::new();
    let mut m = file_menu(&mut set);
    m.show_with_geometry(Rect::new(0, 0, 150, 100));
    assert_eq!(m.handle_key(&set, 0x6F, 0), MenuOutcome::Activate(0));
    m.show_with_geometry(Rect::new(0, 0, 150, 100));
    // "Save &As" is disabled: choosing it does nothing.
    assert_eq!(m.handle_key(&set, 0x41, 0), MenuOutcome::Handled);
    assert!(m.is_visible());
    assert_eq!(m.handle_key(&set, 0x58, 0), MenuOutcome::OpenSubmenu(4, true));
    assert_eq!(m.active_index(), Some(4));
    assert_eq!(m.handle_key(&set, 0x5A, 0), MenuOutcome::Ignored);
    assert_eq!(m.handle_key(&set, 0x53, 0x0400_0000), MenuOutcome::Ignored);
}

#[test]
fn menu_clashing_mnemonics_cycle() {
    let mut set = ActionSet::new();
    let mut m = Menu::new("m");
    m.add_new_action(&mut set, "&Copy");
    m.add_new_action(&mut set, "&Cut");
    m.show_with_geometry(Rect::new(0, 0, 150, 100));
    assert_eq!(m.handle_key(&set, 0x43, 0), MenuOutcome::Handled);
    assert_eq!(m.active_index(), Some(0));
    m.handle_key(&set, 0x43, 0);
    assert_eq!(m.active_index(), Some(1));
    m.handle_key(&set, 0x43, 0);
    assert_eq!(m.active_index(), Some(0));
}

#[test]
fn menu_item_geometry_and_mouse() {
    let mut set = ActionSet::new();
    let mut m = file_menu(&mut set);
    m.show_with_geometry(Rect::new(10, 10, 150, 100));
    let rects = m.item_rects(&set, 24);
    assert_eq!(rects[0], Rect::new(1, 4, 148, 24));
    assert_eq!(rects[1], Rect::new(1, 28, 148, 9));
    assert_eq!(rects[2], Rect::new(1, 37, 148, 24));
    assert_eq!(m.index_at(&set, 24, Point::new(5, 40)), Some(2));
    assert_eq!(m.action_at(&set, 24, Point::new(5, 5)), Some(0));
    assert_eq!(m.action_geometry(&set, 24, 2), Some(Rect::new(1, 37, 148, 24)));
    assert_eq!(m.handle_mouse_move(&set, 24, Point::new(5, 40)), MenuOutcome::Handled);
    assert_eq!(m.active_index(), Some(2));
    assert_eq!(m.handle_mouse_move(&set, 24, Point::new(5, 100)), MenuOutcome::OpenSubmenu(4, false));
    assert_eq!(m.handle_mouse_release(&set, 24, Point::new(5, 30)), MenuOutcome::Handled);
    assert_eq!(m.handle_mouse_release(&set, 24, Point::new(5, 10)), MenuOutcome::Activate(0));
    assert!(!m.is_visible());
}

#[test]
fn menu_press_outside_closes() {
    let mut set = ActionSet::new();
    let mut m = file_menu(&mut set);
    m.show_with_geometry(Rect::new(0, 0, 150, 100));
    assert_eq!(m.handle_mouse_press(&set, 24, Point::new(300, 5)), MenuOutcome::Closed);
    assert!(!m.is_visible());
}

#[test]
fn menu_submenu_placement_and_child_outcomes() {
    let mut set = ActionSet::new();
    let mut m = file_menu(&mut set);
    m.set_popup_bounds(Some(Rect::new(0, 0, 300, 200)));
    m.show_with_geometry(Rect::new(100, 20, 150, 140));
    let placed = m.open_submenu_at(&set, 24, 4, Size::new(120, 60));
    // Entry 4 starts at 4 + 24 + 9 + 24 + 24 = 85; the sub-menu would pass
    // the right edge (148 + 120 > 200), so it opens on the left.
    assert_eq!(placed, Some((Rect::new(-100, 81, 120, 60), Some(Rect::new(-100, -20, 300, 200)))));
    assert_eq!(m.open_submenu(), Some(9));
    assert_eq!(m.open_submenu_at(&set, 24, 4, Size::new(120, 60)), None);
    assert_eq!(m.outcome_from_child(MenuOutcome::NavigateLeft), MenuOutcome::Handled);
    assert_eq!(m.open_submenu(), None);
    assert_eq!(m.outcome_from_child(MenuOutcome::Activate(7)), MenuOutcome::Activate(7));
    assert!(!m.is_visible());
    assert_eq!(m.last_triggered_action(), Some(7));
    assert_eq!(m.open_submenu_at(&set, 24, 0, Size::new(10, 10)), None);
}

#[test]
fn menu_popup_geometry_stays_in_bounds() {
    let mut m = Menu::new("m");
    assert_eq!(m.popup_geometry(Point::new(50, 60), Size::new(100, 80)), Rect::new(50, 60, 100, 80));
    m.set_popup_bounds(Some(Rect::new(0, 0, 200, 150)));
    assert_eq!(m.popup_geometry(Point::new(150, 100), Size::new(100, 80)), Rect::new(100, 20, 100, 80));
    assert_eq!(m.popup_geometry(Point::new(150, 50), Size::new(100, 120)), Rect::new(100, 30, 100, 120));
    let mut set = ActionSet::new();
    let a = m.add_new_action(&mut set, "a");
    m.popup_at(Point::new(10, 10), Size::new(100, 40), Some(a));
    assert!(m.is_visible());
    assert_eq!(m.active_action(), Some(a));
    m.handle_leave();
    assert_eq!(m.active_action(), None);
    assert_eq!(m.entries()[0], MenuEntry { action: a, submenu: None });
    assert!(m.hide_menu());
    assert!(!m.hide_menu());
}

use qtrs_widgets::menu_bar::{MenuBar, MenuBarChange};

fn bar() -> MenuBar {
    let mut b = MenuBar::new();
    b.set_geometry(Rect::new(0, 0, 300, 24));
    b.add_menu(1, "&File");
    b.add_menu(2, "&Edit");
    b.add_menu(3, "&Help");
    b.add_menu(1, "Again");
    b
}

#[test]
fn menu_bar_menus_and_slots() {
    let mut b = bar();
    assert_eq!(b.menus(), vec![1, 2, 3]);
    assert_eq!(b.hit(150), Some(1));
    assert_eq!(b.hit(-5), Some(0));
    assert_eq!(b.hit(300), None);
    assert_eq!(b.hit(-150), None);
    let c = b.activate_menu(1);
    assert_eq!(c, MenuBarChange { hide: None, show: Some((2, Rect::new(100, 24, 100, 0))) });
    assert_eq!(b.active_menu(), Some(2));
    let c = b.activate_menu(1);
    assert_eq!(c, MenuBarChange { hide: Some(2), show: None });
    assert_eq!(b.active_menu(), None);
    assert_eq!(b.activate_menu(7), MenuBarChange { hide: None, show: None });
    assert_eq!(b.mnemonic('H'), Some(2));
    assert_eq!(b.mnemonic('h'), None);
}

#[test]
fn menu_bar_keys_and_clicks() {
    let mut b = bar();
    let (c, used) = b.handle_key(0x45, 0x0800_0000);
    assert!(used);
    assert_eq!(c.show, Some((2, Rect::new(100, 24, 100, 0))));
    let (c, _) = b.handle_key(0x0100_0014, 0);
    assert_eq!(c, MenuBarChange { hide: Some(2), show: Some((3, Rect::new(200, 24, 100, 0))) });
    let (c, _) = b.handle_key(0x0100_0014, 0);
    assert_eq!(c.show, Some((1, Rect::new(0, 24, 100, 0))));
    let (c, _) = b.handle_key(0x0100_0012, 0);
    assert_eq!(c.show, Some((3, Rect::new(200, 24, 100, 0))));
    let (c, used) = b.handle_key(0x0100_0000, 0);
    assert!(used);
    assert_eq!(c.hide, Some(3));
    let (_, used) = b.handle_key(0x0100_0012, 0);
    assert!(!used);
    assert_eq!(b.key_press_event(0x48, 0), MenuBarChange { hide: None, show: None });
    assert_eq!(b.key_press_event(0x48, 0x0800_0000).show, Some((3, Rect::new(200, 24, 100, 0))));
    let c = b.mouse_press_event(Point::new(250, 5), 1);
    assert_eq!(c.hide, Some(3));
    assert_eq!(b.mouse_press_event(Point::new(50, 5), 2), MenuBarChange { hide: None, show: None });
}
