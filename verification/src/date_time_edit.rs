//! Date and time editors (`QDateTimeEdit`, `QDateEdit`, `QTimeEdit`): the
//! value within its range, stepping the current section, and the text shown.

use vstd::prelude::*;

use crate::date::{add_days_fits, date_after, date_lt, lemma_date_after_is, date_valid, day_number_of, days_in_month, Date};
use crate::geometry::{Point, Rect, Size};
use crate::input_keys::{is_down, is_left, is_right, is_up};
use crate::text::{decimal, push_decimal, str_to_string, chars_of, string_of};

verus! {

/// Editing section within a temporal widget (`QDateTimeEdit::Section`).
#[derive(Debug, Clone, Copy, PartialEq, Eq, Structural, Hash)]
pub enum DateTimeSection {
    NoSection,
    YearSection,
    MonthSection,
    DaySection,
    HourSection,
    MinuteSection,
    SecondSection,
}

impl Default for DateTimeSection {
    fn default() -> (r: DateTimeSection)
        ensures
            r == DateTimeSection::NoSection,
    {
        DateTimeSection::NoSection
    }
}

/// A time of day: hour, minute, second and millisecond.
#[derive(Debug, Clone, Copy, PartialEq, Eq, Structural)]
pub struct Time {
    pub hour: u32,
    pub minute: u32,
    pub second: u32,
    pub msec: u32,
}

impl Time {
    /// The time `hour`:`minute`:`second`.`msec`, as given.
    pub fn new(hour: u32, minute: u32, second: u32, msec: u32) -> (r: Time)
        ensures
            r == (Time { hour, minute, second, msec }),
    {
        Time { hour, minute, second, msec }
    }
}

/// A date and a time of day.
#[derive(Debug, Clone, Copy, PartialEq, Eq, Structural)]
pub struct DateTime {
    pub date: Date,
    pub time: Time,
}

impl DateTime {
    pub fn new(date: Date, time: Time) -> (r: DateTime)
        ensures
            r == (DateTime { date, time }),
    {
        DateTime { date, time }
    }
}

/// Whether the time names a moment of a day.
pub open spec fn time_valid(t: Time) -> bool {
    t.hour < 24 && t.minute < 60 && t.second < 60 && t.msec < 1000
}

/// Times in order: hour, minute, second, millisecond.
pub open spec fn time_lt(a: Time, b: Time) -> bool {
    a.hour < b.hour || (a.hour == b.hour && (a.minute < b.minute || (a.minute == b.minute && (a.second
        < b.second || (a.second == b.second && a.msec < b.msec)))))
}

/// Date-times in order: the date, then the time.
pub open spec fn datetime_lt(a: DateTime, b: DateTime) -> bool {
    date_lt(a.date, b.date) || (a.date == b.date && time_lt(a.time, b.time))
}

fn time_before(a: &Time, b: &Time) -> (r: bool)
    ensures
        r == time_lt(*a, *b),
{
    a.hour < b.hour || (a.hour == b.hour && (a.minute < b.minute || (a.minute == b.minute && (a.second
        < b.second || (a.second == b.second && a.msec < b.msec)))))
}

fn datetime_before(a: &DateTime, b: &DateTime) -> (r: bool)
    ensures
        r == datetime_lt(*a, *b),
{
    a.date.is_before(&b.date) || (a.date == b.date && time_before(&a.time, &b.time))
}

/// What changed when the value was set.
#[derive(Debug, Clone, Copy, PartialEq, Eq, Structural)]
pub struct DateTimeChange {
    pub date_time: bool,
    pub date: bool,
    pub time: bool,
}

/// An editor as plain values.
pub struct DateTimeEditView {
    pub value: DateTime,
    pub min: DateTime,
    pub max: DateTime,
    pub current_section: nat,
    pub sections: Seq<DateTimeSection>,
    pub format: Seq<char>,
    pub up_pressed: bool,
    pub down_pressed: bool,
    pub has_focus: bool,
    pub enabled: bool,
    pub geometry: Rect,
}

/// The states an editor keeps: a current section among at most six
/// sections, and a size that is not negative.
pub open spec fn edit_wf(v: DateTimeEditView) -> bool {
    &&& v.sections.len() <= 6
    &&& (v.sections.len() > 0 ==> v.current_section < v.sections.len())
    &&& v.current_section <= 6
    &&& v.geometry.width >= 0
    &&& v.geometry.height >= 0
}

/// `dt` brought into the range.
pub open spec fn clamp_dt(v: DateTimeEditView, dt: DateTime) -> DateTime {
    if datetime_lt(dt, v.min) {
        v.min
    } else if datetime_lt(v.max, dt) {
        v.max
    } else {
        dt
    }
}

/// `setDateTime`: the value brought into the range; what changed.
pub open spec fn spec_set_dt(v: DateTimeEditView, dt: DateTime) -> (DateTimeEditView, DateTimeChange) {
    let c = clamp_dt(v, dt);
    if c == v.value {
        (v, DateTimeChange { date_time: false, date: false, time: false })
    } else {
        (
            DateTimeEditView { value: c, ..v },
            DateTimeChange { date_time: true, date: c.date != v.value.date, time: c.time != v.value.time },
        )
    }
}

/// The section being edited.
pub open spec fn section_of(v: DateTimeEditView) -> DateTimeSection {
    if v.sections.len() == 0 {
        DateTimeSection::NoSection
    } else if v.current_section < v.sections.len() {
        v.sections[v.current_section as int]
    } else {
        v.sections[v.sections.len() - 1]
    }
}

/// The smaller of `a` and `b`.
pub open spec fn min_int(a: int, b: int) -> int {
    if a < b {
        a
    } else {
        b
    }
}

/// Seconds a step of a time section moves.
pub open spec fn section_unit(s: DateTimeSection) -> int {
    match s {
        DateTimeSection::HourSection => 3600,
        DateTimeSection::MinuteSection => 60,
        _ => 1,
    }
}

/// Seconds from midnight after moving the time by `steps` units of `s`.
pub open spec fn moved_seconds(t: Time, steps: int, s: DateTimeSection) -> int {
    t.hour * 3600 + t.minute * 60 + t.second + steps * section_unit(s)
}

/// The inputs stepping is defined on: for the year section a new year that
/// is an `i32`; for the month section a month count `12 * year + month - 1 +
/// steps` that is an `i32`; for the day and time sections a valid date that
/// can move the days the step passes ([`add_days_fits`]).
pub open spec fn step_ok(v: DateTimeEditView, steps: int) -> bool {
    let d = v.value.date;
    let s = section_of(v);
    if s == DateTimeSection::YearSection {
        i32::MIN <= d.year + steps <= i32::MAX
    } else if s == DateTimeSection::MonthSection {
        &&& d.month <= i32::MAX
        &&& i32::MIN <= d.year * 12 <= i32::MAX
        &&& i32::MIN <= d.year * 12 + (d.month - 1) <= i32::MAX
        &&& i32::MIN <= d.year * 12 + (d.month - 1) + steps <= i32::MAX
    } else if s == DateTimeSection::NoSection {
        true
    } else {
        date_valid(d) && add_days_fits(d.year as int, step_days(v, steps))
    }
}

/// `stepBy` for the year and month sections, where the new date is computed
/// directly: the day is kept within the new month.
pub open spec fn stepped_date(d: Date, steps: int, s: DateTimeSection) -> Date {
    if s == DateTimeSection::YearSection {
        let y = d.year + steps;
        Date { year: y as i32, day: min_int(d.day as int, days_in_month(y, d.month as int)) as u32, ..d }
    } else {
        let total = d.year * 12 + (d.month - 1) + steps;
        let y = total / 12;
        let m = total % 12 + 1;
        Date { year: y as i32, month: m as u32, day: min_int(d.day as int, days_in_month(y, m)) as u32 }
    }
}

/// The result of `stepBy(steps)`: for the year and month sections the date
/// as [`stepped_date`]; for the day section `d2` is the date `steps` days
/// on; for the time sections the time wraps around midnight and `d2` is the
/// date that many days on. The result is then set as the value; the pair is
/// the new state and what changed.
pub open spec fn step_outcome(v: DateTimeEditView, steps: int, d2: Date) -> (DateTimeEditView, DateTimeChange) {
    let s = section_of(v);
    let d = v.value.date;
    let t = v.value.time;
    if s == DateTimeSection::YearSection || s == DateTimeSection::MonthSection {
        spec_set_dt(v, DateTime { date: stepped_date(d, steps, s), time: t })
    } else if s == DateTimeSection::DaySection {
        spec_set_dt(v, DateTime { date: d2, time: t })
    } else if s == DateTimeSection::NoSection {
        spec_set_dt(v, v.value)
    } else {
        let sec = moved_seconds(t, steps, s) % 86400;
        spec_set_dt(
            v,
            DateTime {
                date: d2,
                time: Time {
                    hour: (sec / 3600) as u32,
                    minute: ((sec / 60) % 60) as u32,
                    second: (sec % 60) as u32,
                    msec: t.msec,
                },
            },
        )
    }
}

/// How many days the date moves for `steps`: `steps` for the day section,
/// the days the time passes for the time sections, none otherwise.
pub open spec fn step_days(v: DateTimeEditView, steps: int) -> int {
    let s = section_of(v);
    if s == DateTimeSection::DaySection {
        steps
    } else if s == DateTimeSection::HourSection || s == DateTimeSection::MinuteSection || s
        == DateTimeSection::SecondSection {
        moved_seconds(v.value.time, steps, s) / 86400
    } else {
        0
    }
}

/// `s` with every `pat` replaced by `rep`, scanning from the left (`str::replace`).
pub open spec fn replace_all(s: Seq<char>, pat: Seq<char>, rep: Seq<char>) -> Seq<char>
    decreases s.len(),
{
    if pat.len() == 0 || s.len() < pat.len() {
        s
    } else if s.subrange(0, pat.len() as int) == pat {
        rep + replace_all(s.subrange(pat.len() as int, s.len() as int), pat, rep)
    } else {
        seq![s[0]] + replace_all(s.drop_first(), pat, rep)
    }
}

/// `stepBy(steps)`: the new state and what changed ([`step_outcome`] with the
/// date [`step_days`] days on).
pub open spec fn spec_step(v: DateTimeEditView, steps: int) -> (DateTimeEditView, DateTimeChange) {
    step_outcome(v, steps, date_after(v.value.date, step_days(v, steps)))
}

/// A press on a step button: the step, with the button shown pressed and the
/// focus taken.
pub open spec fn spec_button_step(v: DateTimeEditView, up: bool) -> (DateTimeEditView, DateTimeChange) {
    let (w, c) = spec_step(v, if up { 1 } else { -1 });
    (
        DateTimeEditView {
            up_pressed: if up { true } else { w.up_pressed },
            down_pressed: if up { w.down_pressed } else { true },
            has_focus: true,
            ..w
        },
        c,
    )
}

/// The decimal digits of `n`, led by zeros to `width` characters.
pub open spec fn zero_padded(n: nat, width: nat) -> Seq<char> {
    let ds = decimal(n);
    if ds.len() >= width {
        ds
    } else {
        Seq::new((width - ds.len()) as nat, |i: int| '0') + ds
    }
}

/// `n` as `format!("{:0w$}")` writes it: a minus sign counts toward the width.
pub open spec fn signed_padded(n: int, width: nat) -> Seq<char> {
    if n >= 0 {
        zero_padded(n as nat, width)
    } else {
        seq!['-'] + zero_padded((-n) as nat, if width > 0 {
            (width - 1) as nat
        } else {
            0
        })
    }
}

/// The text shown: the format with `yyyy`, `MM`, `dd`, `HH`, `mm` and `ss`
/// replaced, in that order, by the zero-padded fields.
pub open spec fn formatted(format: Seq<char>, dt: DateTime) -> Seq<char> {
    let s1 = replace_all(format, seq!['y', 'y', 'y', 'y'], signed_padded(dt.date.year as int, 4));
    let s2 = replace_all(s1, seq!['M', 'M'], zero_padded(dt.date.month as nat, 2));
    let s3 = replace_all(s2, seq!['d', 'd'], zero_padded(dt.date.day as nat, 2));
    let s4 = replace_all(s3, seq!['H', 'H'], zero_padded(dt.time.hour as nat, 2));
    let s5 = replace_all(s4, seq!['m', 'm'], zero_padded(dt.time.minute as nat, 2));
    replace_all(s5, seq!['s', 's'], zero_padded(dt.time.second as nat, 2))
}

/// Width of the step buttons at the right edge.
pub const BUTTON_WIDTH: i32 = 18;

/// Editor for a date and a time of day.
pub struct DateTimeEdit {
    value: DateTime,
    min: DateTime,
    max: DateTime,
    current_section: usize,
    sections: Vec<DateTimeSection>,
    format: String,
    up_pressed: bool,
    down_pressed: bool,
    has_focus: bool,
    enabled: bool,
    geometry: Rect,
}

impl View for DateTimeEdit {
    type V = DateTimeEditView;

    closed spec fn view(&self) -> DateTimeEditView {
        DateTimeEditView {
            value: self.value,
            min: self.min,
            max: self.max,
            current_section: self.current_section as nat,
            sections: self.sections@,
            format: self.format@,
            up_pressed: self.up_pressed,
            down_pressed: self.down_pressed,
            has_focus: self.has_focus,
            enabled: self.enabled,
            geometry: self.geometry,
        }
    }
}

/// The six sections of a date-time editor, year to second.
pub open spec fn all_sections() -> Seq<DateTimeSection> {
    seq![
        DateTimeSection::YearSection,
        DateTimeSection::MonthSection,
        DateTimeSection::DaySection,
        DateTimeSection::HourSection,
        DateTimeSection::MinuteSection,
        DateTimeSection::SecondSection,
    ]
}

/// Floor division and remainder by 86400 (a day in seconds).
fn day_split(total: i64) -> (r: (i64, i64))
    requires
        total > i64::MIN,
    ensures
        r.0 == total as int / 86400,
        r.1 == total as int % 86400,
        0 <= r.1 < 86400,
{
    if total >= 0 {
        (total / 86400, total % 86400)
    } else {
        let a: i64 = -total;
        let q0 = a / 86400;
        let r0 = a % 86400;
        proof {
            vstd::arithmetic::div_mod::lemma_fundamental_div_mod(a as int, 86400);
            vstd::arithmetic::div_mod::lemma_mod_bound(a as int, 86400);
        }
        if r0 == 0 {
            proof {
                vstd::arithmetic::div_mod::lemma_fundamental_div_mod_converse(total as int, 86400, -q0, 0);
            }
            (-q0, 0)
        } else {
            proof {
                vstd::arithmetic::div_mod::lemma_fundamental_div_mod_converse(
                    total as int,
                    86400,
                    -q0 - 1,
                    86400 - r0,
                );
            }
            (-q0 - 1, 86400 - r0)
        }
    }
}

/// Replaces every `pat` in `s` by `rep` ([`replace_all`]).
fn replace_chars(s: &Vec<char>, pat: &Vec<char>, rep: &Vec<char>) -> (r: Vec<char>)
    requires
        pat@.len() > 0,
    ensures
        r@ == replace_all(s@, pat@, rep@),
{
    let mut out: Vec<char> = Vec::new();
    let mut i: usize = 0;
    let n = s.len();
    let k = pat.len();
    assert(s@.subrange(0, n as int) =~= s@);
    assert(out@ + replace_all(s@, pat@, rep@) =~= replace_all(s@, pat@, rep@));
    while i < n
        invariant
            0 <= i <= n == s@.len(),
            k == pat@.len() > 0,
            out@ + replace_all(s@.subrange(i as int, n as int), pat@, rep@) == replace_all(s@, pat@, rep@),
        decreases n - i,
    {
        let ghost rest = s@.subrange(i as int, n as int);
        let mut matched = n - i >= k;
        let mut j: usize = 0;
        while matched && j < k
            invariant
                0 <= j <= k == pat@.len(),
                i + k <= n ==> true,
                matched ==> n - i >= k,
                matched ==> forall|t: int| 0 <= t < j ==> s@[i + t] == pat@[t],
                !matched ==> (n - i < k || rest.subrange(0, k as int) != pat@),
                n == s@.len(),
                rest == s@.subrange(i as int, n as int),
            decreases k - j,
        {
            if s[i + j] != pat[j] {
                assert(rest.subrange(0, k as int)[j as int] != pat@[j as int]);
                matched = false;
            }
            j = j + 1;
        }
        if matched {
            assert(rest.subrange(0, k as int) =~= pat@);
            let mut t: usize = 0;
            let ghost before = out@;
            while t < rep.len()
                invariant
                    0 <= t <= rep@.len(),
                    out@ == before + rep@.subrange(0, t as int),
                decreases rep@.len() - t,
            {
                out.push(rep[t]);
                t = t + 1;
                assert(out@ =~= before + rep@.subrange(0, t as int));
            }
            assert(rep@.subrange(0, rep@.len() as int) =~= rep@);
            assert(rest.subrange(k as int, rest.len() as int) =~= s@.subrange(i + k, n as int));
            assert(before + replace_all(rest, pat@, rep@) == before + (rep@ + replace_all(
                s@.subrange(i + k, n as int),
                pat@,
                rep@,
            )));
            assert(before + (rep@ + replace_all(s@.subrange(i + k, n as int), pat@, rep@)) =~= out@
                + replace_all(s@.subrange(i + k, n as int), pat@, rep@));
            i = i + k;
        } else {
            let ghost before = out@;
            out.push(s[i]);
            assert(rest.drop_first() =~= s@.subrange(i + 1, n as int));
            assert(rest[0] == s@[i as int]);
            assert(before + (seq![rest[0]] + replace_all(rest.drop_first(), pat@, rep@)) =~= out@
                + replace_all(rest.drop_first(), pat@, rep@));
            i = i + 1;
        }
    }
    assert(s@.subrange(n as int, n as int).len() == 0);
    assert(out@ + replace_all(s@.subrange(n as int, n as int), pat@, rep@) =~= out@);
    out
}

/// Appends `n` led by zeros to `width` characters ([`zero_padded`]).
fn push_padded(out: &mut Vec<char>, n: u32, width: usize)
    ensures
        final(out)@ == old(out)@ + zero_padded(n as nat, width as nat),
{
    let mut ds: Vec<char> = Vec::new();
    push_decimal(&mut ds, n);
    assert(ds@ =~= decimal(n as nat));
    let ghost start = out@;
    if ds.len() < width {
        let pad = width - ds.len();
        let mut i: usize = 0;
        while i < pad
            invariant
                0 <= i <= pad,
                out@ == start + Seq::new(i as nat, |k: int| '0'),
            decreases pad - i,
        {
            out.push('0');
            i = i + 1;
            assert(out@ =~= start + Seq::new(i as nat, |k: int| '0'));
        }
    }
    let ghost mid = out@;
    let mut j: usize = 0;
    while j < ds.len()
        invariant
            0 <= j <= ds@.len(),
            out@ == mid + ds@.subrange(0, j as int),
        decreases ds@.len() - j,
    {
        out.push(ds[j]);
        j = j + 1;
        assert(out@ =~= mid + ds@.subrange(0, j as int));
    }
    assert(ds@.subrange(0, ds@.len() as int) =~= ds@);
    assert(out@ =~= old(out)@ + zero_padded(n as nat, width as nat));
}

impl DateTimeEdit {
    /// The invariant of the editor.
    pub open spec fn wf(&self) -> bool {
        edit_wf(self@)
    }

    /// An editor on 2026-09-26 12:00:00 ([`DateTimeEdit::with_datetime`]).
    pub fn new() -> (r: DateTimeEdit)
        ensures
            r.wf(),
            r@.value == (DateTime {
                date: Date { year: 2026, month: 9, day: 26 },
                time: Time { hour: 12, minute: 0, second: 0, msec: 0 },
            }),
            r@.sections == all_sections(),
    {
        DateTimeEdit::with_datetime(DateTime::new(Date::new(2026, 9, 26), Time::new(12, 0, 0, 0)))
    }

    /// An editor on `dt` (taken as given), ranging from 1900-01-01 00:00:00.000
    /// to 2100-12-31 23:59:59.999, with the six sections from the year on,
    /// the year current, format `yyyy-MM-dd HH:mm:ss`, 160 by 26.
    pub fn with_datetime(dt: DateTime) -> (r: DateTimeEdit)
        ensures
            r.wf(),
            r@ == (DateTimeEditView {
                value: dt,
                min: DateTime { date: Date { year: 1900, month: 1, day: 1 }, time: Time { hour: 0, minute: 0, second: 0, msec: 0 } },
                max: DateTime {
                    date: Date { year: 2100, month: 12, day: 31 },
                    time: Time { hour: 23, minute: 59, second: 59, msec: 999 },
                },
                current_section: 0,
                sections: all_sections(),
                format: r@.format,
                up_pressed: false,
                down_pressed: false,
                has_focus: false,
                enabled: true,
                geometry: Rect { x: 0, y: 0, width: 160, height: 26 },
            }),
            r@.format == "yyyy-MM-dd HH:mm:ss"@,
    {
        let mut sections: Vec<DateTimeSection> = Vec::new();
        sections.push(DateTimeSection::YearSection);
        sections.push(DateTimeSection::MonthSection);
        sections.push(DateTimeSection::DaySection);
        sections.push(DateTimeSection::HourSection);
        sections.push(DateTimeSection::MinuteSection);
        sections.push(DateTimeSection::SecondSection);
        assert(sections@ =~= all_sections());
        DateTimeEdit {
            value: dt,
            min: DateTime::new(Date::new(1900, 1, 1), Time::new(0, 0, 0, 0)),
            max: DateTime::new(Date::new(2100, 12, 31), Time::new(23, 59, 59, 999)),
            current_section: 0,
            sections,
            format: str_to_string("yyyy-MM-dd HH:mm:ss"),
            up_pressed: false,
            down_pressed: false,
            has_focus: false,
            enabled: true,
            geometry: Rect::new(0, 0, 160, 26),
        }
    }

    pub fn date_time(&self) -> (r: DateTime)
        ensures
            r == self@.value,
    {
        self.value
    }

    /// Sets the value ([`spec_set_dt`]); returns what changed.
    pub fn set_date_time(&mut self, dt: DateTime) -> (r: DateTimeChange)
        requires
            old(self).wf(),
        ensures
            final(self).wf(),
            (final(self)@, r) == spec_set_dt(old(self)@, dt),
    {
        let c = if datetime_before(&dt, &self.min) {
            self.min
        } else if datetime_before(&self.max, &dt) {
            self.max
        } else {
            dt
        };
        if c == self.value {
            return DateTimeChange { date_time: false, date: false, time: false };
        }
        let date_changed = c.date != self.value.date;
        let time_changed = c.time != self.value.time;
        self.value = c;
        DateTimeChange { date_time: true, date: date_changed, time: time_changed }
    }

    pub fn date(&self) -> (r: Date)
        ensures
            r == self@.value.date,
    {
        self.value.date
    }

    /// Sets the date, keeping the time.
    pub fn set_date(&mut self, date: Date) -> (r: DateTimeChange)
        requires
            old(self).wf(),
        ensures
            final(self).wf(),
            (final(self)@, r) == spec_set_dt(old(self)@, DateTime { date, time: old(self)@.value.time }),
    {
        let t = self.value.time;
        self.set_date_time(DateTime::new(date, t))
    }

    pub fn time(&self) -> (r: Time)
        ensures
            r == self@.value.time,
    {
        self.value.time
    }

    /// Sets the time, keeping the date.
    pub fn set_time(&mut self, time: Time) -> (r: DateTimeChange)
        requires
            old(self).wf(),
        ensures
            final(self).wf(),
            (final(self)@, r) == spec_set_dt(old(self)@, DateTime { date: old(self)@.value.date, time }),
    {
        let d = self.value.date;
        self.set_date_time(DateTime::new(d, time))
    }

    /// Makes `section` current when the editor has it.
    pub fn set_current_section(&mut self, section: DateTimeSection)
        requires
            old(self).wf(),
        ensures
            final(self).wf(),
            (exists|i: int| 0 <= i < old(self)@.sections.len() && old(self)@.sections[i] == section)
                ==> final(self)@.sections[final(self)@.current_section as int] == section
                && (forall|i: int| 0 <= i < final(self)@.current_section ==> old(self)@.sections[i] != section)
                && final(self)@ == (DateTimeEditView { current_section: final(self)@.current_section, ..old(self)@ }),
            !(exists|i: int| 0 <= i < old(self)@.sections.len() && old(self)@.sections[i] == section)
                ==> final(self)@ == old(self)@,
    {
        let mut k: usize = 0;
        while k < self.sections.len()
            invariant
                0 <= k <= self@.sections.len(),
                self@ == old(self)@,
                edit_wf(self@),
                forall|i: int| 0 <= i < k ==> self@.sections[i] != section,
            decreases self@.sections.len() - k,
        {
            if self.sections[k] == section {
                self.current_section = k;
                return;
            }
            k = k + 1;
        }
    }

    /// The section being edited ([`section_of`]).
    pub fn current_section(&self) -> (r: DateTimeSection)
        requires
            self.wf(),
        ensures
            r == section_of(self@),
    {
        if self.sections.len() == 0 {
            DateTimeSection::NoSection
        } else if self.current_section < self.sections.len() {
            self.sections[self.current_section]
        } else {
            self.sections[self.sections.len() - 1]
        }
    }

    pub fn display_format(&self) -> (r: &str)
        ensures
            r@ == self@.format,
    {
        self.format.as_str()
    }

    pub fn set_display_format(&mut self, format: &str)
        requires
            old(self).wf(),
        ensures
            final(self).wf(),
            final(self)@ == (DateTimeEditView { format: format@, ..old(self)@ }),
    {
        self.format = str_to_string(format);
    }

    /// Moves the current section by `steps` ([`spec_step`]); returns what changed.
    pub fn step_by(&mut self, steps: i32) -> (r: DateTimeChange)
        requires
            old(self).wf(),
            step_ok(old(self)@, steps as int),
        ensures
            final(self).wf(),
            (final(self)@, r) == spec_step(old(self)@, steps as int),
    {
        let sec = self.current_section();
        let d = self.value.date;
        let t = self.value.time;
        match sec {
            DateTimeSection::NoSection => {
                let v = self.value;
                let r = self.set_date_time(v);
                assert((final(self)@, r) == step_outcome(old(self)@, steps as int, d));
                r
            },
            DateTimeSection::YearSection => {
                let y = d.year + steps;
                let dim = Date::days_in_month_of(y, d.month);
                let day = if d.day < dim {
                    d.day
                } else {
                    dim
                };
                let nd = Date::new(y, d.month, day);
                let r = self.set_date_time(DateTime::new(nd, t));
                assert((final(self)@, r) == step_outcome(old(self)@, steps as int, d));
                r
            },
            DateTimeSection::MonthSection => {
                let total: i64 = d.year as i64 * 12 + (d.month as i64 - 1) + steps as i64;
                let (y64, m64) = if total >= 0 {
                    (total / 12, total % 12)
                } else {
                    let a: i64 = -total;
                    let q0 = a / 12;
                    let r0 = a % 12;
                    proof {
                        vstd::arithmetic::div_mod::lemma_fundamental_div_mod(a as int, 12);
                        vstd::arithmetic::div_mod::lemma_mod_bound(a as int, 12);
                    }
                    if r0 == 0 {
                        proof {
                            vstd::arithmetic::div_mod::lemma_fundamental_div_mod_converse(total as int, 12, -q0, 0);
                        }
                        (-q0, 0)
                    } else {
                        proof {
                            vstd::arithmetic::div_mod::lemma_fundamental_div_mod_converse(
                                total as int,
                                12,
                                -q0 - 1,
                                12 - r0,
                            );
                        }
                        (-q0 - 1, 12 - r0)
                    }
                };
                let y = y64 as i32;
                let m = (m64 + 1) as u32;
                let dim = Date::days_in_month_of(y, m);
                let day = if d.day < dim {
                    d.day
                } else {
                    dim
                };
                let r = self.set_date_time(DateTime::new(Date::new(y, m, day), t));
                assert((final(self)@, r) == step_outcome(old(self)@, steps as int, d));
                r
            },
            DateTimeSection::DaySection => {
                let nd = d.add_days(steps as i64);
                let r = self.set_date_time(DateTime::new(nd, t));
                assert((final(self)@, r) == step_outcome(old(self)@, steps as int, nd));
                proof {
                    lemma_date_after_is(d, step_days(old(self)@, steps as int), nd);
                }
                r
            },
            _ => {
                let unit: i64 = match sec {
                    DateTimeSection::HourSection => 3600,
                    DateTimeSection::MinuteSection => 60,
                    _ => 1,
                };
                let total: i64 = t.hour as i64 * 3600 + t.minute as i64 * 60 + t.second as i64 + steps as i64
                    * unit;
                let (day_delta, sid) = day_split(total);
                proof {
                    assert(total > i64::MIN);
                    assert(day_delta as int * 86400 <= total) by {
                        vstd::arithmetic::div_mod::lemma_fundamental_div_mod(total as int, 86400);
                    }
                    assert(total < (day_delta as int + 1) * 86400) by {
                        vstd::arithmetic::div_mod::lemma_fundamental_div_mod(total as int, 86400);
                    }
                }
                let nd = d.add_days(day_delta);
                let nt = Time::new((sid / 3600) as u32, ((sid / 60) % 60) as u32, (sid % 60) as u32, t.msec);
                let r = self.set_date_time(DateTime::new(nd, nt));
                assert((final(self)@, r) == step_outcome(old(self)@, steps as int, nd));
                proof {
                    lemma_date_after_is(d, step_days(old(self)@, steps as int), nd);
                }
                r
            },
        }
    }

    /// Steps the current section up by one.
    pub fn step_up(&mut self) -> (r: DateTimeChange)
        requires
            old(self).wf(),
            step_ok(old(self)@, 1),
        ensures
            final(self).wf(),
            (final(self)@, r) == spec_step(old(self)@, 1),
    {
        self.step_by(1)
    }

    /// Steps the current section down by one.
    pub fn step_down(&mut self) -> (r: DateTimeChange)
        requires
            old(self).wf(),
            step_ok(old(self)@, -1),
        ensures
            final(self).wf(),
            (final(self)@, r) == spec_step(old(self)@, -1),
    {
        self.step_by(-1)
    }

    /// The text shown ([`formatted`]).
    pub fn formatted_text(&self) -> (r: String)
        ensures
            r@ == formatted(self@.format, self@.value),
    {
        let d = self.value.date;
        let t = self.value.time;
        let f = chars_of(self.format.as_str());
        let mut year: Vec<char> = Vec::new();
        if d.year >= 0 {
            push_padded(&mut year, d.year as u32, 4);
        } else {
            year.push('-');
            let mag: u32 = (-(d.year as i64)) as u32;
            push_padded(&mut year, mag, 3);
        }
        assert(year@ =~= signed_padded(d.year as int, 4));
        let mut mo: Vec<char> = Vec::new();
        push_padded(&mut mo, d.month, 2);
        let mut dd: Vec<char> = Vec::new();
        push_padded(&mut dd, d.day, 2);
        let mut hh: Vec<char> = Vec::new();
        push_padded(&mut hh, t.hour, 2);
        let mut mi: Vec<char> = Vec::new();
        push_padded(&mut mi, t.minute, 2);
        let mut ss: Vec<char> = Vec::new();
        push_padded(&mut ss, t.second, 2);
        let p_year = vec!['y', 'y', 'y', 'y'];
        let p_mo = vec!['M', 'M'];
        let p_dd = vec!['d', 'd'];
        let p_hh = vec!['H', 'H'];
        let p_mi = vec!['m', 'm'];
        let p_ss = vec!['s', 's'];
        assert(p_year@ =~= seq!['y', 'y', 'y', 'y']);
        assert(p_mo@ =~= seq!['M', 'M']);
        assert(p_dd@ =~= seq!['d', 'd']);
        assert(p_hh@ =~= seq!['H', 'H']);
        assert(p_mi@ =~= seq!['m', 'm']);
        assert(p_ss@ =~= seq!['s', 's']);
        let s1 = replace_chars(&f, &p_year, &year);
        let s2 = replace_chars(&s1, &p_mo, &mo);
        let s3 = replace_chars(&s2, &p_dd, &dd);
        let s4 = replace_chars(&s3, &p_hh, &hh);
        let s5 = replace_chars(&s4, &p_mi, &mi);
        let s6 = replace_chars(&s5, &p_ss, &ss);
        string_of(&s6)
    }

    pub fn has_focus(&self) -> (r: bool)
        ensures
            r == self@.has_focus,
    {
        self.has_focus
    }

    pub fn geometry(&self) -> (r: Rect)
        ensures
            r == self@.geometry,
    {
        self.geometry
    }

    pub fn set_geometry(&mut self, rect: Rect)
        requires
            old(self).wf(),
            rect.width >= 0,
            rect.height >= 0,
        ensures
            final(self).wf(),
            final(self)@ == (DateTimeEditView { geometry: rect, ..old(self)@ }),
    {
        self.geometry = rect;
    }

    /// The preferred size, 160 by 26.
    pub fn size_hint(&self) -> (r: Size)
        ensures
            r == (Size { width: 160, height: 26 }),
    {
        Size::new(160, 26)
    }

    pub fn is_up_pressed(&self) -> (r: bool)
        ensures
            r == self@.up_pressed,
    {
        self.up_pressed
    }

    pub fn is_down_pressed(&self) -> (r: bool)
        ensures
            r == self@.down_pressed,
    {
        self.down_pressed
    }

    /// A key goes down: Up and Down step the current section, Left and
    /// Right (or Tab) move between sections.
    pub fn key_press_event(&mut self, key: u32) -> (r: DateTimeChange)
        requires
            old(self).wf(),
            is_up(key) ==> step_ok(old(self)@, 1),
            is_down(key) && !is_up(key) ==> step_ok(old(self)@, -1),
        ensures
            final(self).wf(),
            !is_up(key) && !is_down(key) ==> r == (DateTimeChange { date_time: false, date: false, time: false })
                && final(self)@ == (DateTimeEditView {
                current_section: if is_left(key) && old(self)@.current_section > 0 {
                    (old(self)@.current_section - 1) as nat
                } else if (is_right(key) || key == 0x0100_0001) && !is_left(key) && old(self)@.current_section + 1
                    < old(self)@.sections.len() {
                    old(self)@.current_section + 1
                } else {
                    old(self)@.current_section
                },
                ..old(self)@
            }),
            is_up(key) ==> (final(self)@, r) == spec_step(old(self)@, 1),
            is_down(key) && !is_up(key) ==> (final(self)@, r) == spec_step(old(self)@, -1),
    {
        if is_up(key) {
            self.step_up()
        } else if is_down(key) {
            self.step_down()
        } else {
            if is_left(key) {
                if self.current_section > 0 {
                    self.current_section = self.current_section - 1;
                }
            } else if is_right(key) || key == 0x0100_0001 {
                if self.current_section + 1 < self.sections.len() {
                    self.current_section = self.current_section + 1;
                }
            }
            DateTimeChange { date_time: false, date: false, time: false }
        }
    }

    /// The wheel turns: away steps up, toward steps down.
    pub fn wheel_event(&mut self, delta_y: i32) -> (r: DateTimeChange)
        requires
            old(self).wf(),
            delta_y > 0 ==> step_ok(old(self)@, 1),
            delta_y < 0 ==> step_ok(old(self)@, -1),
        ensures
            final(self).wf(),
            delta_y > 0 ==> (final(self)@, r) == spec_step(old(self)@, 1),
            delta_y < 0 ==> (final(self)@, r) == spec_step(old(self)@, -1),
            delta_y == 0 ==> final(self)@ == old(self)@ && r == (DateTimeChange {
                date_time: false,
                date: false,
                time: false,
            }),
    {
        if delta_y > 0 {
            self.step_up()
        } else if delta_y < 0 {
            self.step_down()
        } else {
            DateTimeChange { date_time: false, date: false, time: false }
        }
    }

    /// A left press at `pos`: on the step buttons at the right edge, the
    /// upper half steps up and the lower half down (the button shows
    /// pressed); anywhere it takes the focus.
    pub fn mouse_press_event(&mut self, pos: Point, button: u32) -> (r: DateTimeChange)
        requires
            old(self).wf(),
            button == 1 && pos.x >= old(self)@.geometry.width - BUTTON_WIDTH && pos.y
                < old(self)@.geometry.height / 2 ==> step_ok(old(self)@, 1),
            button == 1 && pos.x >= old(self)@.geometry.width - BUTTON_WIDTH && pos.y
                >= old(self)@.geometry.height / 2 ==> step_ok(old(self)@, -1),
        ensures
            final(self).wf(),
            button != 1 ==> final(self)@ == old(self)@ && r == (DateTimeChange {
                date_time: false,
                date: false,
                time: false,
            }),
            button == 1 && pos.x < old(self)@.geometry.width - BUTTON_WIDTH ==> final(self)@ == (DateTimeEditView {
                has_focus: true,
                ..old(self)@
            }) && r == (DateTimeChange { date_time: false, date: false, time: false }),
            button == 1 && pos.x >= old(self)@.geometry.width - BUTTON_WIDTH ==> (final(self)@, r)
                == spec_button_step(old(self)@, pos.y < old(self)@.geometry.height / 2),
    {
        if button != 1 {
            return DateTimeChange { date_time: false, date: false, time: false };
        }
        if pos.x as i64 >= self.geometry.width as i64 - BUTTON_WIDTH as i64 {
            let half = self.geometry.height / 2;
            let r = if pos.y < half {
                let r = self.step_up();
                self.up_pressed = true;
                r
            } else {
                let r = self.step_down();
                self.down_pressed = true;
                r
            };
            self.has_focus = true;
            r
        } else {
            self.has_focus = true;
            DateTimeChange { date_time: false, date: false, time: false }
        }
    }

    /// A mouse button goes up: the step buttons show released.
    pub fn mouse_release_event(&mut self)
        requires
            old(self).wf(),
        ensures
            final(self).wf(),
            final(self)@ == (DateTimeEditView { up_pressed: false, down_pressed: false, ..old(self)@ }),
    {
        self.up_pressed = false;
        self.down_pressed = false;
    }
}

/// Editor for a date only (`QDateEdit`): the year, month and day sections.
pub struct DateEdit {
    inner: DateTimeEdit,
}

impl View for DateEdit {
    type V = DateTimeEditView;

    closed spec fn view(&self) -> DateTimeEditView {
        self.inner@
    }
}

impl DateEdit {
    /// The invariant of the editor.
    pub open spec fn wf(&self) -> bool {
        edit_wf(self@)
    }


    /// An editor on 2026-09-26.
    pub fn new() -> (r: DateEdit)
        ensures
            r.wf(),
            r@.value.date == (Date { year: 2026, month: 9, day: 26 }),
    {
        DateEdit::with_date(Date::new(2026, 9, 26))
    }

    /// An editor on `date` at midnight, with the sections year, month and
    /// day and the format `yyyy-MM-dd`.
    pub fn with_date(date: Date) -> (r: DateEdit)
        ensures
            r.wf(),
            r@.value == (DateTime { date, time: Time { hour: 0, minute: 0, second: 0, msec: 0 } }),
            r@.sections == seq![
                DateTimeSection::YearSection,
                DateTimeSection::MonthSection,
                DateTimeSection::DaySection,
            ],
            r@.current_section == 0,
            r@.format == "yyyy-MM-dd"@,
    {
        let mut inner = DateTimeEdit::with_datetime(DateTime::new(date, Time::new(0, 0, 0, 0)));
        let mut sections: Vec<DateTimeSection> = Vec::new();
        sections.push(DateTimeSection::YearSection);
        sections.push(DateTimeSection::MonthSection);
        sections.push(DateTimeSection::DaySection);
        inner.sections = sections;
        inner.format = str_to_string("yyyy-MM-dd");
        DateEdit { inner }
    }

    /// The underlying date-time editor.
    pub fn editor(&self) -> (r: &DateTimeEdit)
        ensures
            r@ == self@,
    {
        &self.inner
    }

    pub fn date(&self) -> (r: Date)
        ensures
            r == self@.value.date,
    {
        self.inner.date()
    }

    /// Sets the date ([`DateTimeEdit::set_date`]).
    pub fn set_date(&mut self, date: Date) -> (r: DateTimeChange)
        requires
            old(self).wf(),
        ensures
            final(self).wf(),
            (final(self)@, r) == spec_set_dt(
                old(self)@,
                DateTime { date, time: old(self)@.value.time },
            ),
    {
        self.inner.set_date(date)
    }

    /// Steps the current section up by one ([`DateTimeEdit::step_up`]).
    pub fn step_up(&mut self) -> (r: DateTimeChange)
        requires
            old(self).wf(),
            step_ok(old(self)@, 1),
        ensures
            final(self).wf(),
            (final(self)@, r) == spec_step(old(self)@, 1),
    {
        self.inner.step_up()
    }

    /// Steps the current section down by one ([`DateTimeEdit::step_down`]).
    pub fn step_down(&mut self) -> (r: DateTimeChange)
        requires
            old(self).wf(),
            step_ok(old(self)@, -1),
        ensures
            final(self).wf(),
            (final(self)@, r) == spec_step(old(self)@, -1),
    {
        self.inner.step_down()
    }
}

/// Editor for a time of day only (`QTimeEdit`): the hour, minute and second sections.
pub struct TimeEdit {
    inner: DateTimeEdit,
}

impl View for TimeEdit {
    type V = DateTimeEditView;

    closed spec fn view(&self) -> DateTimeEditView {
        self.inner@
    }
}

impl TimeEdit {
    /// The invariant of the editor.
    pub open spec fn wf(&self) -> bool {
        edit_wf(self@)
    }


    /// An editor on 12:00:00.
    pub fn new() -> (r: TimeEdit)
        ensures
            r.wf(),
            r@.value.time == (Time { hour: 12, minute: 0, second: 0, msec: 0 }),
    {
        TimeEdit::with_time(Time::new(12, 0, 0, 0))
    }

    /// An editor on `time` of 2026-01-01, with the sections hour, minute and
    /// second and the format `HH:mm:ss`.
    pub fn with_time(time: Time) -> (r: TimeEdit)
        ensures
            r.wf(),
            r@.value == (DateTime { date: Date { year: 2026, month: 1, day: 1 }, time }),
            r@.sections == seq![
                DateTimeSection::HourSection,
                DateTimeSection::MinuteSection,
                DateTimeSection::SecondSection,
            ],
            r@.current_section == 0,
            r@.format == "HH:mm:ss"@,
    {
        let mut inner = DateTimeEdit::with_datetime(DateTime::new(Date::new(2026, 1, 1), time));
        let mut sections: Vec<DateTimeSection> = Vec::new();
        sections.push(DateTimeSection::HourSection);
        sections.push(DateTimeSection::MinuteSection);
        sections.push(DateTimeSection::SecondSection);
        inner.sections = sections;
        inner.format = str_to_string("HH:mm:ss");
        TimeEdit { inner }
    }

    /// The underlying date-time editor.
    pub fn editor(&self) -> (r: &DateTimeEdit)
        ensures
            r@ == self@,
    {
        &self.inner
    }

    pub fn time(&self) -> (r: Time)
        ensures
            r == self@.value.time,
    {
        self.inner.time()
    }

    /// Sets the time ([`DateTimeEdit::set_time`]).
    pub fn set_time(&mut self, time: Time) -> (r: DateTimeChange)
        requires
            old(self).wf(),
        ensures
            final(self).wf(),
            (final(self)@, r) == spec_set_dt(
                old(self)@,
                DateTime { date: old(self)@.value.date, time },
            ),
    {
        self.inner.set_time(time)
    }

    /// Steps the current section up by one ([`DateTimeEdit::step_up`]).
    pub fn step_up(&mut self) -> (r: DateTimeChange)
        requires
            old(self).wf(),
            step_ok(old(self)@, 1),
        ensures
            final(self).wf(),
            (final(self)@, r) == spec_step(old(self)@, 1),
    {
        self.inner.step_up()
    }

    /// Steps the current section down by one ([`DateTimeEdit::step_down`]).
    pub fn step_down(&mut self) -> (r: DateTimeChange)
        requires
            old(self).wf(),
            step_ok(old(self)@, -1),
        ensures
            final(self).wf(),
            (final(self)@, r) == spec_step(old(self)@, -1),
    {
        self.inner.step_down()
    }
}

} // verus!
