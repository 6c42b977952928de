use qtrs_widgets::calendar_widget::CalendarWidget;
use qtrs_widgets::date::Date;
use qtrs_widgets::geometry::{Point, Rect, Size};

const KEY_LEFT: u32 = 0x0100_0012;
const KEY_RIGHT: u32 = 0x0100_0014;
const KEY_UP: u32 = 0x0100_0013;
const KEY_DOWN: u32 = 0x0100_0015;

#[test]
fn date_month_lengths_and_leap_years() {
    assert_eq!(Date::days_in_month_of(2024, 2), 29);
    assert_eq!(Date::days_in_month_of(2023, 2), 28);
    assert_eq!(Date::days_in_month_of(1900, 2), 28);
    assert_eq!(Date::days_in_month_of(2000, 2), 29);
    assert_eq!(Date::days_in_month_of(2024, 4), 30);
    assert_eq!(Date::days_in_month_of(2024, 12), 31);
    assert_eq!(Date::days_in_month_of(2024, 13), 0);
    assert!(Date::new(2024, 2, 29).is_valid());
    assert!(!Date::new(2023, 2, 29).is_valid());
    assert!(!Date::new(2023, 0, 1).is_valid());
}

#[test]
fn date_weekdays() {
    assert_eq!(Date::new(1970, 1, 1).day_of_week(), 4);
    assert_eq!(Date::new(2026, 9, 26).day_of_week(), 6);
    assert_eq!(Date::new(2000, 1, 1).day_of_week(), 6);
    assert_eq!(Date::new(2024, 3, 4).day_of_week(), 1);
    assert_eq!(Date::new(1600, 3, 5).day_of_week(), 7);
    assert_eq!(Date::new(-1, 12, 31).day_of_week(), 5);
}

#[test]
fn date_add_days_crosses_months_and_years() {
    assert_eq!(Date::new(2024, 2, 28).add_days(1), Date::new(2024, 2, 29));
    assert_eq!(Date::new(2024, 2, 29).add_days(1), Date::new(2024, 3, 1));
    assert_eq!(Date::new(2023, 12, 31).add_days(1), Date::new(2024, 1, 1));
    assert_eq!(Date::new(2024, 1, 1).add_days(-1), Date::new(2023, 12, 31));
    assert_eq!(Date::new(2024, 3, 1).add_days(-1), Date::new(2024, 2, 29));
    assert_eq!(Date::new(2024, 1, 1).add_days(366), Date::new(2025, 1, 1));
    assert_eq!(Date::new(2000, 1, 1).add_days(146097), Date::new(2400, 1, 1));
    assert_eq!(Date::new(2026, 9, 26).add_days(0), Date::new(2026, 9, 26));
    assert!(Date::new(2024, 1, 31).is_before(&Date::new(2024, 2, 1)));
    assert!(!Date::new(2024, 2, 1).is_before(&Date::new(2024, 2, 1)));
}

#[test]
fn calendar_defaults() {
    let c = CalendarWidget::new();
    assert_eq!(c.selected_date(), Date::new(2026, 9, 26));
    assert_eq!(c.current_page(), (2026, 9));
    assert_eq!(c.first_day_of_week(), 1);
    assert_eq!(c.minimum_date(), Date::new(1900, 1, 1));
    assert_eq!(c.maximum_date(), Date::new(2100, 12, 31));
    assert_eq!(c.size_hint(), Size::new(280, 240));
    assert_eq!(c.grid_rect(), Rect::new(0, 56, 280, 184));
    assert_eq!(c.cell_rect(1, 2), Rect::new(40, 116, 40, 30));
}

#[test]
fn calendar_grid_for_september_2026() {
    let c = CalendarWidget::new();
    // 2026-09-01 is a Tuesday: with Monday first it stands in column 1.
    assert_eq!(c.date_at_cell(0, 0), Date::new(2026, 8, 31));
    assert_eq!(c.date_at_cell(1, 0), Date::new(2026, 9, 1));
    assert_eq!(c.date_at_cell(5, 3), Date::new(2026, 9, 26));
    assert_eq!(c.date_at_cell(2, 4), Date::new(2026, 9, 30));
    assert_eq!(c.date_at_cell(3, 4), Date::new(2026, 10, 1));
    assert_eq!(c.date_at_cell(6, 5), Date::new(2026, 10, 11));
}

#[test]
fn calendar_first_day_of_week_shifts_grid() {
    let mut c = CalendarWidget::new();
    c.set_first_day_of_week(7);
    assert_eq!(c.first_day_of_week(), 7);
    assert_eq!(c.date_at_cell(2, 0), Date::new(2026, 9, 1));
    assert_eq!(c.date_at_cell(0, 0), Date::new(2026, 8, 30));
    c.set_first_day_of_week(8);
    assert_eq!(c.first_day_of_week(), 7);
}

#[test]
fn calendar_selection_is_clamped_to_range() {
    let mut c = CalendarWidget::new();
    assert!(c.set_selected_date(Date::new(1800, 5, 5)));
    assert_eq!(c.selected_date(), Date::new(1900, 1, 1));
    assert_eq!(c.current_page(), (1900, 1));
    assert!(!c.set_selected_date(Date::new(2023, 2, 29)));
    assert!(!c.set_selected_date(Date::new(1900, 1, 1)));
    assert!(c.set_date_range(Date::new(2000, 1, 1), Date::new(2000, 12, 31)));
    assert_eq!(c.selected_date(), Date::new(2000, 1, 1));
    assert!(!c.set_date_range(Date::new(2001, 1, 1), Date::new(2000, 1, 1)));
    assert_eq!(c.minimum_date(), Date::new(2000, 1, 1));
}

#[test]
fn calendar_page_navigation() {
    let mut c = CalendarWidget::new();
    assert!(c.set_current_page(2026, 12));
    assert!(c.show_next_month());
    assert_eq!(c.current_page(), (2027, 1));
    assert!(c.show_prev_month());
    assert!(c.show_prev_month());
    assert_eq!(c.current_page(), (2026, 11));
    assert!(!c.set_current_page(2026, 13));
    assert!(!c.set_current_page(2026, 11));
}

#[test]
fn calendar_mouse_navigation_and_selection() {
    let mut c = CalendarWidget::new();
    assert_eq!(c.mouse_press_event(Point::new(10, 10), 1), None);
    assert_eq!(c.current_page(), (2026, 8));
    assert_eq!(c.mouse_press_event(Point::new(270, 10), 1), None);
    assert_eq!(c.current_page(), (2026, 9));
    // Row 0, column 2 of September 2026: Wednesday the 2nd.
    assert_eq!(c.mouse_press_event(Point::new(85, 60), 1), Some(Date::new(2026, 9, 2)));
    assert_eq!(c.selected_date(), Date::new(2026, 9, 2));
    assert!(c.has_focus());
    assert_eq!(c.mouse_press_event(Point::new(85, 60), 2), None);
    assert_eq!(c.cell_at_pos(Point::new(279, 239)), Some((6, 5)));
    assert_eq!(c.cell_at_pos(Point::new(10, 40)), None);
}

#[test]
fn calendar_arrow_keys_move_selection() {
    let mut c = CalendarWidget::new();
    c.key_press_event(KEY_RIGHT);
    assert_eq!(c.selected_date(), Date::new(2026, 9, 27));
    c.key_press_event(KEY_DOWN);
    assert_eq!(c.selected_date(), Date::new(2026, 10, 4));
    assert_eq!(c.current_page(), (2026, 10));
    c.key_press_event(KEY_UP);
    c.key_press_event(KEY_LEFT);
    assert_eq!(c.selected_date(), Date::new(2026, 9, 26));
    c.key_press_event(0x41);
    assert_eq!(c.selected_date(), Date::new(2026, 9, 26));
}
