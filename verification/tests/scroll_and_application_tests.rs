use qtrs_widgets::application::Application;
use qtrs_widgets::geometry::{Rect, Size};
use qtrs_widgets::scroll::{Orientation, ScrollArea, ScrollBar, ScrollBarPolicy};

#[test]
fn scroll_bar_value_stays_in_range() {
    let mut b = ScrollBar::new(Orientation::Vertical);
    assert_eq!(b.geometry(), Rect::new(0, 0, 10, 100));
    assert_eq!(b.size_hint(), Size::new(10, 100));
    b.set_range(10, 5);
    assert_eq!((b.minimum(), b.maximum(), b.value()), (10, 10, 10));
    assert!(!b.set_value(-5));
    b.set_range(0, 100);
    assert_eq!(b.value(), 10);
    assert!(b.set_value(50));
    assert!(!b.set_value(50));
    assert!(b.set_value(500));
    assert_eq!(b.value(), 100);
}

#[test]
fn scroll_bar_paging_dragging_and_wheel() {
    let mut b = ScrollBar::new(Orientation::Horizontal);
    b.set_value(50);
    b.mouse_press_event(0, 1, 40, 20);
    assert_eq!(b.value(), 40);
    b.mouse_press_event(70, 1, 40, 20);
    assert_eq!(b.value(), 50);
    b.mouse_press_event(45, 2, 40, 20);
    assert!(!b.is_dragging());
    b.mouse_press_event(45, 1, 40, 20);
    assert!(b.is_dragging());
    assert_eq!(b.value(), 50);
    b.drag_to(25);
    assert_eq!(b.value(), 75);
    b.drag_to(-80);
    assert_eq!(b.value(), 0);
    b.mouse_release_event(1);
    assert!(!b.is_dragging());
    b.drag_to(5);
    assert_eq!(b.value(), 0);
    b.set_value(75);
    b.wheel_event(120);
    assert_eq!(b.value(), 72);
    b.wheel_event(-120);
    assert_eq!(b.value(), 75);
    b.set_page_step(0);
    assert_eq!(b.page_step(), 1);
    b.set_single_step(-3);
    assert_eq!(b.single_step(), 1);
}

#[test]
fn scroll_area_shows_bars_as_needed() {
    let mut a = ScrollArea::new();
    assert_eq!(a.size_hint(), Size::new(200, 200));
    let child = a.set_geometry(Rect::new(0, 0, 100, 100), Some(Size::new(300, 50)));
    assert_eq!(child, Some(Rect::new(0, 0, 300, 90)));
    assert!(!a.vertical_scroll_bar().is_visible());
    assert!(a.horizontal_scroll_bar().is_visible());
    assert_eq!(a.horizontal_scroll_bar().geometry(), Rect::new(0, 90, 100, 10));
    assert_eq!(a.horizontal_scroll_bar().maximum(), 200);
    assert_eq!(a.horizontal_scroll_bar().page_step(), 100);
    assert_eq!(a.viewport_rect(), Rect::new(0, 0, 100, 90));
}

#[test]
fn scroll_area_both_bars_when_content_is_large() {
    let mut a = ScrollArea::new();
    a.set_geometry(Rect::new(0, 0, 100, 100), None);
    let child = a.update_scrollbars(Some(Size::new(95, 400)));
    // The vertical bar takes 10 pixels, so 95 no longer fits across.
    assert_eq!(child, Some(Rect::new(0, 0, 95, 400)));
    assert!(a.vertical_scroll_bar().is_visible());
    assert!(a.horizontal_scroll_bar().is_visible());
    assert_eq!(a.vertical_scroll_bar().maximum(), 310);
    assert_eq!(a.horizontal_scroll_bar().maximum(), 5);
    assert_eq!(a.viewport_rect(), Rect::new(0, 0, 90, 90));
    let off = a.set_vertical_scrollbar_policy(ScrollBarPolicy::AlwaysOff, Some(Size::new(95, 400)));
    assert_eq!(off, Some(Rect::new(0, 0, 100, 400)));
    assert!(!a.vertical_scroll_bar().is_visible());
    assert!(!a.horizontal_scroll_bar().is_visible());
}

#[test]
fn scroll_area_scrolling_moves_child() {
    let mut a = ScrollArea::new();
    a.set_geometry(Rect::new(0, 0, 100, 100), Some(Size::new(300, 50)));
    let r = a.set_scroll_position(150, 20, Some(Size::new(300, 90)));
    assert_eq!(r, Some(Rect::new(-150, -20, 300, 90)));
    assert_eq!(a.scroll_position().x, 150);
    let r = a.set_scroll_position(999, -5, None);
    assert_eq!(r, None);
    assert_eq!((a.scroll_position().x, a.scroll_position().y), (200, 0));
    a.wheel_event(-120, 0, None);
    assert_eq!(a.scroll_position().y, 3);
    let r = a.wheel_event(120, 0x0200_0000, Some(Size::new(300, 90)));
    assert_eq!(r, Some(Rect::new(-197, -3, 300, 90)));
    assert_eq!(ScrollArea::content_size(Size::new(10, 80), Size::new(40, 20)), Size::new(40, 80));
}

#[test]
fn scroll_area_without_extent_ignores_updates() {
    let mut a = ScrollArea::new();
    assert_eq!(a.update_scrollbars(Some(Size::new(500, 500))), None);
    assert!(a.vertical_scroll_bar().is_visible());
    assert_eq!(a.vertical_scroll_bar().maximum(), 100);
}

#[test]
fn application_window_registry() {
    let mut app = Application::new();
    app.register_window(1);
    app.register_window(2);
    app.register_window(1);
    assert_eq!(app.top_level_windows(), vec![1, 2]);
    app.set_active_window(Some(1));
    assert!(!app.unregister_window(1, true));
    assert_eq!(app.active_window(), None);
    assert_eq!(app.top_level_windows(), vec![2]);
    app.set_active_window(Some(2));
    assert!(!app.unregister_window(2, false));
    assert!(app.top_level_windows().is_empty());
    app.register_window(3);
    assert!(app.unregister_window(3, true));
    assert!(app.unregister_window(9, true));
}

#[test]
fn application_focus_changes_and_settings() {
    let mut app = Application::new();
    assert_eq!(app.focus_widget(), None);
    assert_eq!(app.set_focus_widget(Some(5)), Some((None, Some(5))));
    assert_eq!(app.set_focus_widget(Some(5)), None);
    assert_eq!(app.set_focus_widget(None), Some((Some(5), None)));
    assert_eq!(app.double_click_interval(), 400);
    assert_eq!(app.cursor_flash_time(), 1000);
    assert_eq!(app.wheel_scroll_lines(), 3);
    assert_eq!(app.start_drag_distance(), 10);
    assert_eq!(app.start_drag_time(), 500);
    app.set_double_click_interval(250);
    app.set_wheel_scroll_lines(5);
    app.set_start_drag_distance(4);
    app.set_start_drag_time(100);
    app.set_cursor_flash_time(0);
    assert_eq!(app.double_click_interval(), 250);
    app.register_window(7);
    app.reset();
    assert_eq!(app.double_click_interval(), 400);
    assert!(app.top_level_windows().is_empty());
}

use qtrs_widgets::main_window::{DockArea, MainWindow};

#[test]
fn main_window_regions() {
    let mut w = MainWindow::new();
    w.set_geometry(Rect::new(0, 0, 800, 600));
    w.add_tool_bar(10, 30);
    w.add_tool_bar(11, 10);
    let layout = w.layout_regions();
    assert_eq!(layout.menu_bar, Some(Rect::new(0, 0, 800, 26)));
    assert_eq!(layout.tool_bars, vec![Rect::new(0, 26, 800, 30), Rect::new(0, 56, 800, 24)]);
    assert_eq!(layout.status_bar, Rect::new(0, 576, 800, 24));
    assert_eq!(layout.central, None);
    assert_eq!(w.set_central_widget(5), None);
    assert_eq!(w.set_central_widget(6), Some(5));
    assert_eq!(w.central_widget(), Some(6));
    w.add_dock_widget(DockArea::Left, 20);
    w.add_dock_widget(DockArea::Left, 21);
    w.add_dock_widget(DockArea::Right, 22);
    w.add_dock_widget(DockArea::Top, 23);
    w.add_dock_widget(DockArea::Bottom, 24);
    w.add_dock_widget(DockArea::Top, 25);
    assert_eq!(w.dock_widgets(DockArea::Left), vec![20, 21]);
    assert_eq!(w.dock_widgets(DockArea::Top), vec![23, 25]);
    let layout = w.layout_regions();
    assert_eq!(
        layout.docks,
        vec![
            Rect::new(0, 80, 200, 496),
            Rect::new(200, 80, 200, 496),
            Rect::new(600, 80, 200, 496),
            Rect::new(400, 80, 200, 140),
            Rect::new(400, 436, 200, 140),
            Rect::new(400, 220, 200, 140),
        ]
    );
    assert_eq!(layout.central, Some(Rect::new(400, 360, 200, 76)));
}

#[test]
fn main_window_without_bars() {
    let mut w = MainWindow::new();
    w.set_geometry(Rect::new(10, 20, 300, 100));
    w.set_menu_bar_visible(false);
    w.set_status_bar_visible(false);
    w.set_central_widget(1);
    w.add_dock_widget(DockArea::Bottom, 2);
    let layout = w.layout_regions();
    assert_eq!(layout.menu_bar, None);
    assert_eq!(layout.status_bar, Rect::new(10, 120, 300, 0));
    assert_eq!(layout.docks, vec![Rect::new(10, 20, 300, 100)]);
    assert_eq!(layout.central, Some(Rect::new(10, 20, 300, 0)));
}

#[test]
fn scroll_bars_can_be_changed_through_the_area() {
    let mut a = ScrollArea::new();
    assert!(a.vertical_scroll_bar_mut().set_value(30));
    assert_eq!(a.vertical_scroll_bar().value(), 30);
    a.horizontal_scroll_bar_mut().set_page_step(25);
    assert_eq!(a.horizontal_scroll_bar().page_step(), 25);
}

#[test]
fn main_window_owns_its_menu_bar() {
    let mut w = MainWindow::new();
    assert!(w.menu_bar().menus().is_empty());
    w.menu_bar_mut().add_menu(7, "&File");
    w.menu_bar_mut().add_menu(8, "&Edit");
    assert_eq!(w.menu_bar().menus(), vec![7, 8]);
}

#[test]
fn scroll_area_setters_report_child_place() {
    let mut a = ScrollArea::new();
    a.set_geometry(Rect::new(0, 0, 100, 100), Some(Size::new(300, 50)));
    a.set_scroll_position(150, 0, None);
    // Moving the area keeps the scroll position within the new range.
    let r = a.set_geometry(Rect::new(5, 5, 200, 100), Some(Size::new(300, 50)));
    assert_eq!(r, Some(Rect::new(-100, 0, 300, 90)));
    assert_eq!(a.set_geometry(Rect::new(5, 5, 200, 100), Some(Size::new(300, 50))), None);
    let r = a.set_horizontal_scrollbar_policy(ScrollBarPolicy::AlwaysOff, Some(Size::new(300, 50)));
    assert_eq!(r, Some(Rect::new(-100, 0, 300, 100)));
    assert_eq!(a.set_geometry(Rect::new(0, 0, 0, 100), Some(Size::new(300, 50))), None);
}
