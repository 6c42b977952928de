use qtrs_widgets::date::Date;
use qtrs_widgets::date_time_edit::{DateEdit, DateTime, DateTimeEdit, DateTimeSection, Time, TimeEdit};
use qtrs_widgets::geometry::{Point, Size};

fn dt(y: i32, mo: u32, d: u32, h: u32, mi: u32, s: u32) -> DateTime {
    DateTime::new(Date::new(y, mo, d), Time::new(h, mi, s, 0))
}

#[test]
fn date_time_edit_defaults_and_text() {
    let e = DateTimeEdit::new();
    assert_eq!(e.date_time(), dt(2026, 9, 26, 12, 0, 0));
    assert_eq!(e.current_section(), DateTimeSection::YearSection);
    assert_eq!(e.display_format(), "yyyy-MM-dd HH:mm:ss");
    assert_eq!(e.formatted_text(), "2026-09-26 12:00:00");
    assert_eq!(e.size_hint(), Size::new(160, 26));
}

#[test]
fn date_time_edit_year_and_month_steps() {
    let mut e = DateTimeEdit::new();
    let c = e.step_up();
    assert!(c.date_time && c.date && !c.time);
    assert_eq!(e.date(), Date::new(2027, 9, 26));
    e.step_by(-2);
    assert_eq!(e.date(), Date::new(2025, 9, 26));
    e.set_current_section(DateTimeSection::MonthSection);
    assert_eq!(e.current_section(), DateTimeSection::MonthSection);
    e.step_by(4);
    assert_eq!(e.date(), Date::new(2026, 1, 26));
    e.step_by(-1);
    assert_eq!(e.date(), Date::new(2025, 12, 26));
    e.set_date(Date::new(2024, 1, 31));
    e.step_up();
    assert_eq!(e.date(), Date::new(2024, 2, 29));
    e.set_current_section(DateTimeSection::YearSection);
    e.step_up();
    assert_eq!(e.date(), Date::new(2025, 2, 28));
}

#[test]
fn date_time_edit_day_and_time_steps() {
    let mut e = DateTimeEdit::with_datetime(dt(2024, 2, 28, 23, 30, 0));
    e.set_current_section(DateTimeSection::DaySection);
    e.step_up();
    assert_eq!(e.date(), Date::new(2024, 2, 29));
    e.step_up();
    assert_eq!(e.date(), Date::new(2024, 3, 1));
    e.set_current_section(DateTimeSection::HourSection);
    let c = e.step_up();
    assert!(c.date && c.time);
    assert_eq!(e.date_time(), dt(2024, 3, 2, 0, 30, 0));
    e.set_current_section(DateTimeSection::MinuteSection);
    e.step_by(-31);
    assert_eq!(e.date_time(), dt(2024, 3, 1, 23, 59, 0));
    e.set_current_section(DateTimeSection::SecondSection);
    e.step_by(61);
    assert_eq!(e.date_time(), dt(2024, 3, 2, 0, 0, 1));
}

#[test]
fn date_time_edit_value_is_clamped() {
    let mut e = DateTimeEdit::new();
    let c = e.set_date(Date::new(1800, 1, 1));
    assert!(c.date_time && c.date && c.time);
    assert_eq!(e.date_time(), dt(1900, 1, 1, 0, 0, 0));
    e.set_date_time(dt(2200, 5, 5, 5, 5, 5));
    assert_eq!(e.date_time(), DateTime::new(Date::new(2100, 12, 31), Time::new(23, 59, 59, 999)));
    let c = e.set_time(Time::new(23, 59, 59, 999));
    assert!(!c.date_time);
    let e2 = DateTimeEdit::with_datetime(dt(3000, 1, 1, 0, 0, 0));
    assert_eq!(e2.date().year, 3000);
}

#[test]
fn date_time_edit_keys_wheel_and_mouse() {
    let mut e = DateTimeEdit::new();
    e.key_press_event(0x0100_0014);
    assert_eq!(e.current_section(), DateTimeSection::MonthSection);
    e.key_press_event(0x0100_0001);
    assert_eq!(e.current_section(), DateTimeSection::DaySection);
    e.key_press_event(0x0100_0013);
    assert_eq!(e.date(), Date::new(2026, 9, 27));
    e.key_press_event(0x0100_0015);
    assert_eq!(e.date(), Date::new(2026, 9, 26));
    e.key_press_event(0x0100_0012);
    e.key_press_event(0x0100_0012);
    e.key_press_event(0x0100_0012);
    assert_eq!(e.current_section(), DateTimeSection::YearSection);
    e.wheel_event(120);
    assert_eq!(e.date().year, 2027);
    e.wheel_event(-120);
    assert_eq!(e.date().year, 2026);
    e.mouse_press_event(Point::new(150, 5), 1);
    assert!(e.is_up_pressed());
    assert!(e.has_focus());
    assert_eq!(e.date().year, 2027);
    e.mouse_release_event();
    assert!(!e.is_up_pressed());
    e.mouse_press_event(Point::new(150, 20), 1);
    assert!(e.is_down_pressed());
    assert_eq!(e.date().year, 2026);
    e.mouse_press_event(Point::new(10, 20), 1);
    assert_eq!(e.date().year, 2026);
}

#[test]
fn date_time_edit_custom_format() {
    let mut e = DateTimeEdit::new();
    e.set_display_format("dd/MM/yyyy at HH.mm.ss");
    assert_eq!(e.formatted_text(), "26/09/2026 at 12.00.00");
    let neg = DateTimeEdit::with_datetime(dt(-5, 3, 4, 1, 2, 3));
    assert_eq!(neg.formatted_text(), "-005-03-04 01:02:03");
}

#[test]
fn date_and_time_editors() {
    let mut d = DateEdit::with_date(Date::new(2024, 2, 29));
    assert_eq!(d.date(), Date::new(2024, 2, 29));
    assert_eq!(d.editor().formatted_text(), "2024-02-29");
    d.step_up();
    assert_eq!(d.date(), Date::new(2025, 2, 28));
    d.step_down();
    assert_eq!(d.date(), Date::new(2024, 2, 28));
    d.set_date(Date::new(2000, 1, 1));
    assert_eq!(DateEdit::new().date(), Date::new(2026, 9, 26));
    let mut t = TimeEdit::new();
    assert_eq!(t.time(), Time::new(12, 0, 0, 0));
    t.step_down();
    assert_eq!(t.time(), Time::new(11, 0, 0, 0));
    assert_eq!(t.editor().formatted_text(), "11:00:00");
    t.set_time(Time::new(0, 0, 0, 0));
    t.step_down();
    assert_eq!(t.time(), Time::new(23, 0, 0, 0));
    assert_eq!(t.editor().date(), Date::new(2025, 12, 31));
}

#[test]
fn date_time_edit_step_reports_what_changed() {
    let mut e = DateTimeEdit::with_datetime(dt(2024, 2, 28, 23, 59, 30));
    e.set_current_section(DateTimeSection::DaySection);
    let c = e.step_up();
    assert!(c.date_time && c.date && !c.time);
    assert_eq!(e.date(), Date::new(2024, 2, 29));
    e.set_current_section(DateTimeSection::MinuteSection);
    // A minute past 23:59:30 rolls over to the next day.
    let c = e.step_up();
    assert!(c.date_time && c.date && c.time);
    assert_eq!(e.date_time(), dt(2024, 3, 1, 0, 0, 30));
    // At the top of the range a step changes nothing, and says so.
    let max = DateTime::new(Date::new(2100, 12, 31), Time::new(23, 59, 59, 999));
    let mut top = DateTimeEdit::with_datetime(max);
    top.set_current_section(DateTimeSection::SecondSection);
    let c = top.step_up();
    assert!(!c.date_time && !c.date && !c.time);
    assert_eq!(top.date_time(), max);
}

#[test]
fn date_time_edit_large_day_steps() {
    let mut e = DateTimeEdit::with_datetime(dt(2000, 1, 1, 0, 0, 0));
    e.set_current_section(DateTimeSection::DaySection);
    // Far beyond the range: clamped to the maximum.
    e.step_by(200_000_000);
    assert_eq!(e.date_time(), DateTime::new(Date::new(2100, 12, 31), Time::new(23, 59, 59, 999)));
}
