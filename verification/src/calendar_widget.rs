//! Monthly calendar grid (`QCalendarWidget`): the page shown, the selected
//! date within its range, and the six-week grid of days.

use vstd::prelude::*;

use crate::date::{
    add_days_fits, date_after, date_lt, date_valid, day_number, lemma_date_after_is, day_number_of, days_in_month, lemma_prev_month, lemma_next_month,
    weekday_of, Date,
};
use crate::geometry::{Point, Rect, Size};
use crate::input_keys::{is_down, is_left, is_right, is_up};

verus! {

/// Height of the navigation bar above the grid.
pub const NAV_BAR_HEIGHT: i32 = 32;

/// Height of the weekday header row.
pub const DOW_HEADER_HEIGHT: i32 = 24;

/// A calendar as plain values.
pub struct CalendarView {
    pub selected: Date,
    pub year: i32,
    pub month: u32,
    pub min: Date,
    pub max: Date,
    /// ISO number of the weekday in the first column (Monday 1 to Sunday 7).
    pub first_day_of_week: u32,
    pub geometry: Rect,
    pub has_focus: bool,
}

/// The states a calendar keeps: a valid range holding the valid selected
/// date, a month of the year on the page, a weekday in the first column and
/// a size that is not negative.
pub open spec fn calendar_wf(v: CalendarView) -> bool {
    &&& date_valid(v.min)
    &&& date_valid(v.max)
    &&& date_valid(v.selected)
    &&& !date_lt(v.max, v.min)
    &&& !date_lt(v.selected, v.min)
    &&& !date_lt(v.max, v.selected)
    &&& 1 <= v.month <= 12
    &&& 1 <= v.first_day_of_week <= 7
    &&& v.geometry.width >= 0
    &&& v.geometry.height >= 0
}

/// `date` brought into the range.
pub open spec fn clamp_date_of(v: CalendarView, date: Date) -> Date {
    if date_lt(date, v.min) {
        v.min
    } else if date_lt(v.max, date) {
        v.max
    } else {
        date
    }
}

/// `setSelectedDate`: a valid date, brought into the range, becomes the
/// selected date and its month the page. Returns whether the selection changed.
pub open spec fn spec_set_selected(v: CalendarView, date: Date) -> (CalendarView, bool) {
    let c = clamp_date_of(v, date);
    if !date_valid(date) || c == v.selected {
        (v, false)
    } else {
        (CalendarView { selected: c, year: c.year, month: c.month, ..v }, true)
    }
}

/// `setCurrentPage`: shows `month` of `year` when the month is one of the
/// year's and differs from the page. Returns whether the page changed.
pub open spec fn spec_set_page(v: CalendarView, year: int, month: int) -> (CalendarView, bool) {
    if 1 <= month <= 12 && (v.year != year || v.month != month) {
        (CalendarView { year: year as i32, month: month as u32, ..v }, true)
    } else {
        (v, false)
    }
}

/// The page before the current one.
pub open spec fn spec_prev_month(v: CalendarView) -> (CalendarView, bool) {
    if v.month == 1 {
        spec_set_page(v, v.year - 1, 12)
    } else {
        spec_set_page(v, v.year as int, v.month - 1)
    }
}

/// The page after the current one.
pub open spec fn spec_next_month(v: CalendarView) -> (CalendarView, bool) {
    if v.month == 12 {
        spec_set_page(v, v.year + 1, 1)
    } else {
        spec_set_page(v, v.year as int, v.month + 1)
    }
}

/// Integer division rounding toward zero, as `i32` division does.
pub open spec fn div_toward_zero(a: int, b: int) -> int {
    if a >= 0 {
        a / b
    } else {
        -((-a) / b)
    }
}

/// The grid of days below the navigation bar and the weekday header.
pub open spec fn grid_rect_of(v: CalendarView) -> Rect {
    Rect {
        x: 0,
        y: (NAV_BAR_HEIGHT + DOW_HEADER_HEIGHT) as i32,
        width: v.geometry.width,
        height: (v.geometry.height - (NAV_BAR_HEIGHT + DOW_HEADER_HEIGHT)) as i32,
    }
}

/// Width of a day cell.
pub open spec fn cell_width(v: CalendarView) -> int {
    v.geometry.width / 7
}

/// Height of a day cell.
pub open spec fn cell_height(v: CalendarView) -> int {
    div_toward_zero(v.geometry.height - (NAV_BAR_HEIGHT + DOW_HEADER_HEIGHT), 6)
}

/// The cell in column `col` and row `row` of the grid.
pub open spec fn cell_rect_of(v: CalendarView, col: int, row: int) -> Rect {
    Rect {
        x: (col * cell_width(v)) as i32,
        y: ((NAV_BAR_HEIGHT + DOW_HEADER_HEIGHT) + row * cell_height(v)) as i32,
        width: cell_width(v) as i32,
        height: cell_height(v) as i32,
    }
}

/// How many cells of the first row belong to the month before: the first of
/// the month stands in the column of its weekday.
pub open spec fn first_offset(v: CalendarView) -> int {
    (weekday_of(Date { year: v.year, month: v.month, day: 1 }) + 7 - v.first_day_of_week) % 7
}

/// The date shown in column `col` and row `row`: days of the page's month,
/// led by the end of the month before and followed by the next month.
pub open spec fn date_at_cell_of(v: CalendarView, col: int, row: int) -> Date {
    let day_index = row * 7 + col - first_offset(v) + 1;
    let dim = days_in_month(v.year as int, v.month as int);
    if day_index < 1 {
        let (py, pm) = if v.month == 1 {
            (v.year - 1, 12int)
        } else {
            (v.year as int, v.month - 1)
        };
        Date { year: py as i32, month: pm as u32, day: (days_in_month(py, pm) + day_index) as u32 }
    } else if day_index <= dim {
        Date { year: v.year, month: v.month, day: day_index as u32 }
    } else {
        let (ny, nm) = if v.month == 12 {
            (v.year + 1, 1int)
        } else {
            (v.year as int, v.month + 1)
        };
        Date { year: ny as i32, month: nm as u32, day: (day_index - dim) as u32 }
    }
}

/// The cell under `pos`, as (column, row), if it lies in the grid.
pub open spec fn cell_at_of(v: CalendarView, pos: Point) -> Option<(int, int)> {
    let g = grid_rect_of(v);
    if !g.spec_contains(pos) || cell_width(v) <= 0 || cell_height(v) <= 0 {
        None
    } else {
        let c = (pos.x - g.x) / cell_width(v);
        let r = (pos.y - g.y) / cell_height(v);
        Some((
            if c > 6 {
                6
            } else {
                c
            },
            if r > 5 {
                5
            } else {
                r
            },
        ))
    }
}

/// A left click at `pos`: the arrows at the ends of the navigation bar turn
/// the page; a click on a day selects it and takes the focus. Returns the new
/// state and the clicked date.
pub open spec fn spec_mouse_press(v: CalendarView, pos: Point, button: u32) -> (CalendarView, Option<Date>) {
    if button != 1 {
        (v, None)
    } else if pos.y < NAV_BAR_HEIGHT && pos.x < 40 {
        (spec_prev_month(v).0, None)
    } else if pos.y < NAV_BAR_HEIGHT && pos.x > v.geometry.width - 40 {
        (spec_next_month(v).0, None)
    } else {
        match cell_at_of(v, pos) {
            Some((c, r)) => {
                let d = date_at_cell_of(v, c, r);
                (CalendarView { has_focus: true, ..spec_set_selected(v, d).0 }, Some(d))
            },
            None => (v, None),
        }
    }
}

/// Days the arrow keys move the selection: a day left or right, a week up
/// or down; 0 for other keys.
pub open spec fn key_step(key: u32) -> int {
    if is_left(key) {
        -1
    } else if is_right(key) {
        1
    } else if is_up(key) {
        -7
    } else if is_down(key) {
        7
    } else {
        0
    }
}

/// Calendar widget holding the page, the selected date and its range.
pub struct CalendarWidget {
    selected: Date,
    year: i32,
    month: u32,
    min: Date,
    max: Date,
    first_day_of_week: u32,
    geometry: Rect,
    has_focus: bool,
}

impl View for CalendarWidget {
    type V = CalendarView;

    closed spec fn view(&self) -> CalendarView {
        CalendarView {
            selected: self.selected,
            year: self.year,
            month: self.month,
            min: self.min,
            max: self.max,
            first_day_of_week: self.first_day_of_week,
            geometry: self.geometry,
            has_focus: self.has_focus,
        }
    }
}

/// Every cell shows a valid date, and the grid runs through consecutive
/// days: the cell `7 * row + col` places after the first cell holds the day
/// that many days later, the first of the month standing at `first_offset`.
pub proof fn lemma_grid_consecutive(v: CalendarView, col: int, row: int)
    requires
        calendar_wf(v),
        0 <= col < 7,
        0 <= row < 6,
    ensures
        date_valid(date_at_cell_of(v, col, row)) || (v.month == 1 && v.year - 1 < i32::MIN) || (v.month
            == 12 && v.year + 1 > i32::MAX),
        (v.month != 1 || v.year > i32::MIN) && (v.month != 12 || v.year < i32::MAX) ==> day_number_of(
            date_at_cell_of(v, col, row),
        ) == day_number(v.year as int, v.month as int, 1) + 7 * row + col - first_offset(v),
{
    let off = first_offset(v);
    assert(0 <= off < 7);
    lemma_prev_month(v.year as int, v.month as int);
    lemma_next_month(v.year as int, v.month as int);
    if v.month == 1 {
        lemma_next_month(v.year - 1, 12);
    } else {
        lemma_next_month(v.year as int, v.month - 1);
    }
    if v.month == 12 {
        lemma_next_month(v.year + 1, 1);
    } else {
        lemma_next_month(v.year as int, v.month + 1);
    }
}

/// Column `col` of the grid holds the weekday `col` days after the first
/// day of the week, in every row.
pub proof fn lemma_column_weekday(v: CalendarView, col: int, row: int)
    requires
        calendar_wf(v),
        0 <= col < 7,
        0 <= row < 6,
        i32::MIN < v.year < i32::MAX,
    ensures
        weekday_of(date_at_cell_of(v, col, row)) == (v.first_day_of_week - 1 + col) % 7 + 1,
{
    lemma_grid_consecutive(v, col, row);
    let f = v.first_day_of_week as int;
    let dn1 = day_number(v.year as int, v.month as int, 1);
    let a = (dn1 + 2) % 7;
    let q = (dn1 + 2) / 7;
    vstd::arithmetic::div_mod::lemma_fundamental_div_mod(dn1 + 2, 7);
    vstd::arithmetic::div_mod::lemma_mod_bound(dn1 + 2, 7);
    let x = a + 8 - f;
    let t: int = if x >= 7 {
        1
    } else {
        0
    };
    assert(first_offset(v) == x - 7 * t) by {
        vstd::arithmetic::div_mod::lemma_small_mod((x - 7 * t) as nat, 7);
        lemma_shift_div_7(x - 7 * t, t);
    }
    let dn = dn1 + 7 * row + col - first_offset(v);
    assert(dn + 2 == (f - 1 + col) + 7 * (q + row + t - 1));
    lemma_shift_div_7(f - 1 + col, q + row + t - 1);
}

/// Adding whole weeks keeps the remainder by seven.
proof fn lemma_shift_div_7(a: int, c: int)
    ensures
        (a + 7 * c) % 7 == a % 7,
{
    vstd::arithmetic::div_mod::lemma_fundamental_div_mod(a, 7);
    vstd::arithmetic::div_mod::lemma_mod_bound(a, 7);
    assert(a + 7 * c == (a / 7 + c) * 7 + a % 7) by (nonlinear_arith)
        requires
            a == 7 * (a / 7) + a % 7,
    ;
    vstd::arithmetic::div_mod::lemma_fundamental_div_mod_converse_mod(a + 7 * c, 7, a / 7 + c, a % 7);
}

impl CalendarWidget {
    /// The invariant of the calendar.
    pub open spec fn wf(&self) -> bool {
        calendar_wf(self@)
    }

    /// A calendar on 2026-09-26 (selected, with its month shown), ranging
    /// from 1900-01-01 to 2100-12-31, weeks starting on Monday, 280 by 240.
    pub fn new() -> (r: CalendarWidget)
        ensures
            r.wf(),
            r@ == (CalendarView {
                selected: Date { year: 2026, month: 9, day: 26 },
                year: 2026,
                month: 9,
                min: Date { year: 1900, month: 1, day: 1 },
                max: Date { year: 2100, month: 12, day: 31 },
                first_day_of_week: 1,
                geometry: Rect { x: 0, y: 0, width: 280, height: 240 },
                has_focus: false,
            }),
    {
        CalendarWidget {
            selected: Date::new(2026, 9, 26),
            year: 2026,
            month: 9,
            min: Date::new(1900, 1, 1),
            max: Date::new(2100, 12, 31),
            first_day_of_week: 1,
            geometry: Rect::new(0, 0, 280, 240),
            has_focus: false,
        }
    }

    pub fn selected_date(&self) -> (r: Date)
        ensures
            r == self@.selected,
    {
        self.selected
    }

    /// The page shown, as (year, month).
    pub fn current_page(&self) -> (r: (i32, u32))
        ensures
            r == (self@.year, self@.month),
    {
        (self.year, self.month)
    }

    pub fn first_day_of_week(&self) -> (r: u32)
        ensures
            r == self@.first_day_of_week,
    {
        self.first_day_of_week
    }

    pub fn minimum_date(&self) -> (r: Date)
        ensures
            r == self@.min,
    {
        self.min
    }

    pub fn maximum_date(&self) -> (r: Date)
        ensures
            r == self@.max,
    {
        self.max
    }

    pub fn geometry(&self) -> (r: Rect)
        ensures
            r == self@.geometry,
    {
        self.geometry
    }

    /// Places the calendar; a size that is not negative is required.
    pub fn set_geometry(&mut self, rect: Rect)
        requires
            old(self).wf(),
            rect.width >= 0,
            rect.height >= 0,
        ensures
            final(self).wf(),
            final(self)@ == (CalendarView { geometry: rect, ..old(self)@ }),
    {
        self.geometry = rect;
    }

    pub fn has_focus(&self) -> (r: bool)
        ensures
            r == self@.has_focus,
    {
        self.has_focus
    }

    /// The preferred size, 280 by 240.
    pub fn size_hint(&self) -> (r: Size)
        ensures
            r == (Size { width: 280, height: 240 }),
    {
        Size::new(280, 240)
    }

    /// `date` brought into the range ([`clamp_date_of`]).
    fn clamp_date(&self, date: Date) -> (r: Date)
        ensures
            r == clamp_date_of(self@, date),
    {
        if date.is_before(&self.min) {
            self.min
        } else if self.max.is_before(&date) {
            self.max
        } else {
            date
        }
    }

    /// Selects `date` ([`spec_set_selected`]); returns whether the
    /// selection changed.
    pub fn set_selected_date(&mut self, date: Date) -> (changed: bool)
        requires
            old(self).wf(),
        ensures
            final(self).wf(),
            (final(self)@, changed) == spec_set_selected(old(self)@, date),
    {
        if !date.is_valid() {
            return false;
        }
        let c = self.clamp_date(date);
        if c == self.selected {
            return false;
        }
        self.selected = c;
        self.year = c.year;
        self.month = c.month;
        true
    }

    /// Puts weekday `day` (ISO, Monday 1 to Sunday 7) in the first column;
    /// other numbers are ignored.
    pub fn set_first_day_of_week(&mut self, day: u32)
        requires
            old(self).wf(),
        ensures
            final(self).wf(),
            final(self)@ == if 1 <= day <= 7 {
                CalendarView { first_day_of_week: day, ..old(self)@ }
            } else {
                old(self)@
            },
    {
        if 1 <= day && day <= 7 && day != self.first_day_of_week {
            self.first_day_of_week = day;
        }
    }

    /// Shows `month` of `year` ([`spec_set_page`]); returns whether the page changed.
    pub fn set_current_page(&mut self, year: i32, month: u32) -> (changed: bool)
        requires
            old(self).wf(),
        ensures
            final(self).wf(),
            (final(self)@, changed) == spec_set_page(old(self)@, year as int, month as int),
    {
        if 1 <= month && month <= 12 && (self.year != year || self.month != month) {
            self.year = year;
            self.month = month;
            true
        } else {
            false
        }
    }

    /// Shows the month before ([`spec_prev_month`]).
    pub fn show_prev_month(&mut self) -> (changed: bool)
        requires
            old(self).wf(),
            old(self)@.month == 1 ==> old(self)@.year > i32::MIN,
        ensures
            final(self).wf(),
            (final(self)@, changed) == spec_prev_month(old(self)@),
    {
        if self.month == 1 {
            self.set_current_page(self.year - 1, 12)
        } else {
            self.set_current_page(self.year, self.month - 1)
        }
    }

    /// Shows the month after ([`spec_next_month`]).
    pub fn show_next_month(&mut self) -> (changed: bool)
        requires
            old(self).wf(),
            old(self)@.month == 12 ==> old(self)@.year < i32::MAX,
        ensures
            final(self).wf(),
            (final(self)@, changed) == spec_next_month(old(self)@),
    {
        if self.month == 12 {
            self.set_current_page(self.year + 1, 1)
        } else {
            self.set_current_page(self.year, self.month + 1)
        }
    }

    /// Limits the selectable dates to `min` through `max`, unless `max`
    /// comes before `min`; the selection moves into the new range. Returns
    /// whether the selection changed.
    pub fn set_date_range(&mut self, min: Date, max: Date) -> (changed: bool)
        requires
            old(self).wf(),
            date_valid(min),
            date_valid(max),
        ensures
            final(self).wf(),
            date_lt(max, min) ==> final(self)@ == old(self)@ && !changed,
            !date_lt(max, min) ==> (final(self)@, changed) == spec_set_selected(
                CalendarView { min, max, ..old(self)@ },
                clamp_date_of(CalendarView { min, max, ..old(self)@ }, old(self)@.selected),
            ),
    {
        if max.is_before(&min) {
            return false;
        }
        self.min = min;
        self.max = max;
        let c = self.clamp_date(self.selected);
        if c == self.selected {
            return false;
        }
        self.selected = c;
        self.year = c.year;
        self.month = c.month;
        true
    }

    /// The grid of days ([`grid_rect_of`]).
    pub fn grid_rect(&self) -> (r: Rect)
        requires
            self.wf(),
        ensures
            r == grid_rect_of(self@),
    {
        Rect::new(0, NAV_BAR_HEIGHT + DOW_HEADER_HEIGHT, self.geometry.width, self.geometry.height - (
        NAV_BAR_HEIGHT + DOW_HEADER_HEIGHT))
    }

    fn cell_w(&self) -> (r: i32)
        requires
            self.wf(),
        ensures
            r == cell_width(self@),
            0 <= r,
            7 * r <= self@.geometry.width,
    {
        self.geometry.width / 7
    }

    fn cell_h(&self) -> (r: i32)
        requires
            self.wf(),
        ensures
            r == cell_height(self@),
            -10 <= r,
            r > 0 ==> 6 * r <= self@.geometry.height - 56,
    {
        let gh = self.geometry.height - (NAV_BAR_HEIGHT + DOW_HEADER_HEIGHT);
        if gh >= 0 {
            proof {
                vstd::arithmetic::div_mod::lemma_fundamental_div_mod(gh as int, 6);
                vstd::arithmetic::div_mod::lemma_mod_bound(gh as int, 6);
            }
            gh / 6
        } else {
            -((-gh) / 6)
        }
    }

    /// The cell in column `col` (0 to 6) and row `row` (0 to 5) ([`cell_rect_of`]).
    pub fn cell_rect(&self, col: u32, row: u32) -> (r: Rect)
        requires
            self.wf(),
            col < 7,
            row < 6,
        ensures
            r == cell_rect_of(self@, col as int, row as int),
    {
        let cw = self.cell_w();
        let ch = self.cell_h();
        let ci = col as i32;
        let ri = row as i32;
        proof {
            assert(0 <= ci * cw <= 7 * cw) by (nonlinear_arith)
                requires
                    0 <= ci < 7,
                    cw >= 0,
            ;
            assert(-60 <= ri * ch) by (nonlinear_arith)
                requires
                    0 <= ri < 6,
                    -10 <= ch,
            ;
            assert(ch <= 0 ==> ri * ch <= 0) by (nonlinear_arith)
                requires
                    0 <= ri < 6,
            ;
            assert(ch > 0 ==> ri * ch <= 6 * ch) by (nonlinear_arith)
                requires
                    0 <= ri < 6,
            ;
        }
        let y = NAV_BAR_HEIGHT + DOW_HEADER_HEIGHT + ri * ch;
        Rect::new(ci * cw, y, cw, ch)
    }

    /// The date in column `col` (0 to 6) and row `row` (0 to 5) ([`date_at_cell_of`]).
    pub fn date_at_cell(&self, col: u32, row: u32) -> (r: Date)
        requires
            self.wf(),
            col < 7,
            row < 6,
            self@.month == 1 ==> self@.year > i32::MIN,
            self@.month == 12 ==> self@.year < i32::MAX,
        ensures
            r == date_at_cell_of(self@, col as int, row as int),
            date_valid(r),
    {
        let first = Date::new(self.year, self.month, 1);
        let dow = first.day_of_week();
        let offset = ((dow + 7 - self.first_day_of_week) % 7) as i32;
        let day_index: i32 = (row as i32) * 7 + col as i32 - offset + 1;
        let dim = Date::days_in_month_of(self.year, self.month) as i32;
        proof {
            lemma_grid_consecutive(self@, col as int, row as int);
        }
        if day_index < 1 {
            let (py, pm): (i32, u32) = if self.month == 1 {
                (self.year - 1, 12)
            } else {
                (self.year, self.month - 1)
            };
            let dp = Date::days_in_month_of(py, pm) as i32;
            Date::new(py, pm, (dp + day_index) as u32)
        } else if day_index <= dim {
            Date::new(self.year, self.month, day_index as u32)
        } else {
            let (ny, nm): (i32, u32) = if self.month == 12 {
                (self.year + 1, 1)
            } else {
                (self.year, self.month + 1)
            };
            Date::new(ny, nm, (day_index - dim) as u32)
        }
    }

    /// The cell under `pos` as (column, row), if it lies in the grid ([`cell_at_of`]).
    pub fn cell_at_pos(&self, pos: Point) -> (r: Option<(u32, u32)>)
        requires
            self.wf(),
        ensures
            match cell_at_of(self@, pos) {
                Some((c, w)) => r == Some((c as u32, w as u32)) && 0 <= c < 7 && 0 <= w < 6,
                None => r is None,
            },
    {
        let g = self.grid_rect();
        if !g.contains(pos) {
            return None;
        }
        let cw = self.cell_w();
        let ch = self.cell_h();
        if cw <= 0 || ch <= 0 {
            return None;
        }
        let c = (pos.x - g.x) / cw;
        let r = (pos.y - g.y) / ch;
        let c2 = if c > 6 {
            6
        } else {
            c
        };
        let r2 = if r > 5 {
            5
        } else {
            r
        };
        Some((c2 as u32, r2 as u32))
    }

    /// A mouse button goes down at `pos` ([`spec_mouse_press`]); returns the
    /// clicked date, if a day was clicked.
    pub fn mouse_press_event(&mut self, pos: Point, button: u32) -> (r: Option<Date>)
        requires
            old(self).wf(),
            i32::MIN < old(self)@.year < i32::MAX,
        ensures
            final(self).wf(),
            (final(self)@, r) == spec_mouse_press(old(self)@, pos, button),
    {
        if button != 1 {
            return None;
        }
        if pos.y < NAV_BAR_HEIGHT {
            if pos.x < 40 {
                self.show_prev_month();
                return None;
            } else if pos.x as i64 > self.geometry.width as i64 - 40 {
                self.show_next_month();
                return None;
            }
        }
        match self.cell_at_pos(pos) {
            Some((c, w)) => {
                let d = self.date_at_cell(c, w);
                self.set_selected_date(d);
                self.has_focus = true;
                Some(d)
            },
            None => None,
        }
    }

    /// A key goes down: the arrows move the selection by a day or a week,
    /// within the range ([`key_step`]).
    pub fn key_press_event(&mut self, key: u32)
        requires
            old(self).wf(),
            key_step(key) != 0 ==> add_days_fits(old(self)@.selected.year as int, key_step(key)),
        ensures
            final(self).wf(),
            key_step(key) == 0 ==> final(self)@ == old(self)@,
            key_step(key) != 0 ==> final(self)@ == spec_set_selected(
                old(self)@,
                date_after(old(self)@.selected, key_step(key)),
            ).0,
    {
        let step: i64 = if is_left(key) {
            -1
        } else if is_right(key) {
            1
        } else if is_up(key) {
            -7
        } else if is_down(key) {
            7
        } else {
            return;
        };
        let d = self.selected.add_days(step);
        self.set_selected_date(d);
        proof {
            lemma_date_after_is(old(self)@.selected, key_step(key), d);
        }
    }
}

} // verus!
