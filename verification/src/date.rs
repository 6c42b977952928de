//! Calendar dates of the proleptic Gregorian calendar.

use vstd::prelude::*;

verus! {

/// A calendar date: year, month (1 to 12) and day of the month.
#[derive(Debug, Clone, Copy, PartialEq, Eq, Structural)]
pub struct Date {
    pub year: i32,
    pub month: u32,
    pub day: u32,
}

/// Whether `y` is a leap year of the Gregorian calendar.
pub open spec fn is_leap(y: int) -> bool {
    (y % 4 == 0 && y % 100 != 0) || y % 400 == 0
}

/// Number of days in month `m` of year `y`; 0 for a month outside 1 to 12.
pub open spec fn days_in_month(y: int, m: int) -> int {
    if m == 2 {
        if is_leap(y) {
            29
        } else {
            28
        }
    } else if m == 4 || m == 6 || m == 9 || m == 11 {
        30
    } else if 1 <= m <= 12 {
        31
    } else {
        0
    }
}

/// Whether `d` names a day of the calendar.
pub open spec fn date_valid(d: Date) -> bool {
    1 <= d.month <= 12 && 1 <= d.day <= days_in_month(d.year as int, d.month as int)
}

/// Days from the first of March to the first of month `m`, counting the
/// year from March so that February comes last.
pub open spec fn month_offset(m: int) -> int {
    (153 * (if m > 2 {
        m - 3
    } else {
        m + 9
    }) + 2) / 5
}

/// A running day count: consecutive days of the calendar get consecutive
/// numbers (1970-01-01 is day 719468).
pub open spec fn day_number(y: int, m: int, d: int) -> int {
    let y1 = if m <= 2 {
        y - 1
    } else {
        y
    };
    365 * y1 + y1 / 4 - y1 / 100 + y1 / 400 + month_offset(m) + d - 1
}

/// The running day count of a date.
pub open spec fn day_number_of(d: Date) -> int {
    day_number(d.year as int, d.month as int, d.day as int)
}

/// The ISO weekday of a date: Monday 1 through Sunday 7.
pub open spec fn weekday_of(d: Date) -> int {
    (day_number_of(d) + 2) % 7 + 1
}

/// Dates in calendar order: by year, then month, then day.
pub open spec fn date_lt(a: Date, b: Date) -> bool {
    a.year < b.year || (a.year == b.year && (a.month < b.month || (a.month == b.month && a.day
        < b.day)))
}

/// `y / k` and `(y - 1) / k` differ by one exactly when `k` divides `y`.
proof fn lemma_div_step(y: int, k: int)
    requires
        k > 0,
    ensures
        y / k - (y - 1) / k == (if y % k == 0 {
            1int
        } else {
            0int
        }),
{
    vstd::arithmetic::div_mod::lemma_fundamental_div_mod(y, k);
    vstd::arithmetic::div_mod::lemma_fundamental_div_mod(y - 1, k);
    assert(0 <= y % k < k) by {
        vstd::arithmetic::div_mod::lemma_mod_bound(y, k);
    }
    assert(0 <= (y - 1) % k < k) by {
        vstd::arithmetic::div_mod::lemma_mod_bound(y - 1, k);
    }
    let q = y / k;
    let q1 = (y - 1) / k;
    assert(k * q - k * q1 == k * (q - q1)) by (nonlinear_arith);
    if q - q1 >= 2 {
        assert(k * (q - q1) >= 2 * k) by (nonlinear_arith)
            requires
                q - q1 >= 2,
                k > 0,
        ;
    }
    if q - q1 <= -1 {
        assert(k * (q - q1) <= -k) by (nonlinear_arith)
            requires
                q - q1 <= -1,
                k > 0,
        ;
    }
    if q - q1 == 1 {
        assert(k * (q - q1) == k) by (nonlinear_arith)
            requires
                q - q1 == 1,
        ;
    }
    if q - q1 == 0 {
        assert(k * (q - q1) == 0) by (nonlinear_arith)
            requires
                q - q1 == 0,
        ;
    }
}

/// The first of the next month comes `days_in_month` days after the first
/// of month `m`.
pub proof fn lemma_next_month(y: int, m: int)
    requires
        1 <= m <= 12,
    ensures
        m < 12 ==> day_number(y, m + 1, 1) == day_number(y, m, 1) + days_in_month(y, m),
        m == 12 ==> day_number(y + 1, 1, 1) == day_number(y, 12, 1) + 31,
{
    if m == 2 {
        lemma_div_step(y, 4);
        lemma_div_step(y, 100);
        lemma_div_step(y, 400);
        vstd::arithmetic::div_mod::lemma_mod_bound(y, 4);
        if y % 100 == 0 {
            vstd::arithmetic::div_mod::lemma_fundamental_div_mod(y, 100);
            vstd::arithmetic::div_mod::lemma_fundamental_div_mod(y, 4);
            assert(y % 4 == 0) by {
                let q = y / 100;
                assert(y == 4 * (25 * q)) by (nonlinear_arith)
                    requires
                        y == 100 * q + y % 100,
                        y % 100 == 0,
                ;
                vstd::arithmetic::div_mod::lemma_mod_multiples_basic(25 * q, 4);
            }
        }
        if y % 400 == 0 {
            vstd::arithmetic::div_mod::lemma_fundamental_div_mod(y, 400);
            assert(y % 100 == 0) by {
                let q = y / 400;
                assert(y == 100 * (4 * q)) by (nonlinear_arith)
                    requires
                        y == 400 * q + y % 400,
                        y % 400 == 0,
                ;
                vstd::arithmetic::div_mod::lemma_mod_multiples_basic(4 * q, 100);
            }
        }
    }
}

/// Later months start later: the first of a later month comes no sooner
/// than the end of an earlier one.
proof fn lemma_month_starts_increase(y1: int, m1: int, y2: int, m2: int)
    requires
        1 <= m1 <= 12,
        1 <= m2 <= 12,
        12 * y1 + m1 < 12 * y2 + m2,
    ensures
        day_number(y1, m1, 1) + days_in_month(y1, m1) <= day_number(y2, m2, 1),
    decreases 12 * y2 + m2 - (12 * y1 + m1),
{
    lemma_next_month(y1, m1);
    let ny = if m1 < 12 {
        y1
    } else {
        y1 + 1
    };
    let nm = if m1 < 12 {
        m1 + 1
    } else {
        1
    };
    if 12 * ny + nm == 12 * y2 + m2 {
        assert(ny == y2 && nm == m2);
    } else {
        lemma_month_starts_increase(ny, nm, y2, m2);
    }
}

/// Later dates have larger day numbers.
pub proof fn lemma_day_number_increases(a: Date, b: Date)
    requires
        date_valid(a),
        date_valid(b),
        date_lt(a, b),
    ensures
        day_number_of(a) < day_number_of(b),
{
    let (ya, ma, yb, mb) = (a.year as int, a.month as int, b.year as int, b.month as int);
    if !(ya == yb && ma == mb) {
        assert(12 * ya + ma < 12 * yb + mb);
        lemma_month_starts_increase(ya, ma, yb, mb);
    }
}

/// Day numbers name valid dates one to one: two valid dates with the same
/// day number are the same date.
pub proof fn lemma_day_number_injective(a: Date, b: Date)
    requires
        date_valid(a),
        date_valid(b),
        day_number_of(a) == day_number_of(b),
    ensures
        a == b,
{
    if date_lt(a, b) {
        lemma_day_number_increases(a, b);
    } else if date_lt(b, a) {
        lemma_day_number_increases(b, a);
    }
}

/// The day before the first of month `m` is the last day of the month before.
pub proof fn lemma_prev_month(y: int, m: int)
    requires
        1 <= m <= 12,
    ensures
        m > 1 ==> day_number(y, m, 1) == day_number(y, m - 1, 1) + days_in_month(y, m - 1),
        m == 1 ==> day_number(y, 1, 1) == day_number(y - 1, 12, 1) + 31,
{
    if m > 1 {
        lemma_next_month(y, m - 1);
    } else {
        lemma_next_month(y - 1, 12);
    }
}

/// Adding `c` times `k` to `a` adds `c` to the quotient by `k` and keeps the
/// remainder.
proof fn lemma_shift_div(a: int, c: int, k: int)
    requires
        k > 0,
    ensures
        (a + k * c) / k == a / k + c,
        (a + k * c) % k == a % k,
{
    vstd::arithmetic::div_mod::lemma_fundamental_div_mod(a, k);
    vstd::arithmetic::div_mod::lemma_mod_bound(a, k);
    assert(a + k * c == (a / k + c) * k + a % k) by (nonlinear_arith)
        requires
            a == k * (a / k) + a % k,
    ;
    vstd::arithmetic::div_mod::lemma_fundamental_div_mod_converse_div(a + k * c, k, a / k + c, a % k);
    vstd::arithmetic::div_mod::lemma_fundamental_div_mod_converse_mod(a + k * c, k, a / k + c, a % k);
}

/// Four hundred years of the calendar are 146097 days, a whole number of weeks.
proof fn lemma_cycle(y1: int, c: int)
    ensures
        365 * (y1 + 400 * c) + (y1 + 400 * c) / 4 - (y1 + 400 * c) / 100 + (y1 + 400 * c) / 400 == 365
            * y1 + y1 / 4 - y1 / 100 + y1 / 400 + 146097 * c,
{
    assert(y1 + 400 * c == y1 + 4 * (100 * c));
    lemma_shift_div(y1, 100 * c, 4);
    assert(y1 + 400 * c == y1 + 100 * (4 * c));
    lemma_shift_div(y1, 4 * c, 100);
    lemma_shift_div(y1, c, 400);
}

/// The valid date `days` days after `d` (before it when negative); there is
/// exactly one for a valid `d`.
pub open spec fn date_after(d: Date, days: int) -> Date {
    choose|d2: Date| date_valid(d2) && day_number_of(d2) == day_number_of(d) + days
}

/// A valid date `days` days on from `d` is the one [`date_after`] names.
pub proof fn lemma_date_after_is(d: Date, days: int, d2: Date)
    requires
        date_valid(d2),
        day_number_of(d2) == day_number_of(d) + days,
    ensures
        date_after(d, days) == d2,
{
    let c = date_after(d, days);
    assert(date_valid(c) && day_number_of(c) == day_number_of(d) + days);
    lemma_day_number_injective(c, d2);
}

/// Moving a date in `year` by `n` days stays clear of the ends of the `i32`
/// years: a margin of 300,000 years plus a year for every 300 days moved.
pub open spec fn add_days_fits(year: int, n: int) -> bool {
    let an = if n >= 0 { n } else { -n };
    &&& 300 * (year - (i32::MIN + 300_000)) >= an
    &&& 300 * ((i32::MAX - 300_000) - year) >= an
}

impl Date {
    /// The date `year`-`month`-`day`, as given (not checked).
    pub fn new(year: i32, month: u32, day: u32) -> (r: Date)
        ensures
            r == (Date { year, month, day }),
    {
        Date { year, month, day }
    }

    /// Whether `year` is a leap year.
    pub fn is_leap_year(year: i32) -> (r: bool)
        ensures
            r == is_leap(year as int),
    {
        // Shift by 6,000,000 cycles of 400 years to reckon on a positive number.
        let ys: u64 = (year as i64 + 2_400_000_000) as u64;
        proof {
            lemma_shift_div(year as int, 600_000_000, 4);
            lemma_shift_div(year as int, 24_000_000, 100);
            lemma_shift_div(year as int, 6_000_000, 400);
        }
        (ys % 4 == 0 && ys % 100 != 0) || ys % 400 == 0
    }

    /// Number of days in `month` of `year` (0 for a month outside 1 to 12).
    pub fn days_in_month_of(year: i32, month: u32) -> (r: u32)
        ensures
            r == days_in_month(year as int, month as int),
    {
        if month == 2 {
            if Date::is_leap_year(year) {
                29
            } else {
                28
            }
        } else if month == 4 || month == 6 || month == 9 || month == 11 {
            30
        } else if 1 <= month && month <= 12 {
            31
        } else {
            0
        }
    }

    /// Whether the date names a day of the calendar.
    pub fn is_valid(&self) -> (r: bool)
        ensures
            r == date_valid(*self),
    {
        1 <= self.month && self.month <= 12 && 1 <= self.day && self.day <= Date::days_in_month_of(
            self.year,
            self.month,
        )
    }

    /// Whether the date comes before `other` in calendar order.
    pub fn is_before(&self, other: &Date) -> (r: bool)
        ensures
            r == date_lt(*self, *other),
    {
        self.year < other.year || (self.year == other.year && (self.month < other.month || (
        self.month == other.month && self.day < other.day)))
    }
    /// The ISO weekday of the date: Monday 1 through Sunday 7.
    pub fn day_of_week(&self) -> (r: u32)
        requires
            1 <= self.month <= 12,
        ensures
            r == weekday_of(*self),
            1 <= r <= 7,
    {
        let y1: i64 = if self.month <= 2 {
            self.year as i64 - 1
        } else {
            self.year as i64
        };
        // Shift by 6,000,000 cycles of 400 years so the year is positive;
        // each cycle is a whole number of weeks.
        let ys: i64 = y1 + 2_400_000_000;
        let mk: i64 = if self.month > 2 {
            self.month as i64 - 3
        } else {
            self.month as i64 + 9
        };
        let mo: i64 = (153 * mk + 2) / 5;
        let dn: i64 = 365 * ys + ys / 4 - ys / 100 + ys / 400 + mo + self.day as i64 - 1;
        proof {
            lemma_cycle(y1 as int, 6_000_000);
            assert(dn == day_number_of(*self) + 146097 * 6_000_000int);
            assert(146097 * 6_000_000int == 7 * 125_226_000_000int);
            lemma_shift_div(day_number_of(*self) + 2, 125_226_000_000int, 7);
        }
        ((dn + 2) % 7 + 1) as u32
    }

    /// The date `n` days later (earlier for negative `n`), for a valid date
    /// whose year leaves room for the move ([`add_days_fits`]).
    pub fn add_days(&self, n: i64) -> (r: Date)
        requires
            date_valid(*self),
            add_days_fits(self.year as int, n as int),
        ensures
            date_valid(r),
            day_number_of(r) == day_number_of(*self) + n,
    {
        let ghost an: int = if n >= 0 { n as int } else { -n };
        let ghost target = day_number_of(*self) + n;
        let ghost y0 = self.year as int;
        let ghost m0 = self.month as int;
        let mut y: i64 = self.year as i64;
        let mut m: u32 = self.month;
        let mut off: i64 = self.day as i64 - 1 + n;
        let ghost off0 = off as int;
        let ghost mut k: int = 0;
        while off < 0
            invariant
                1 <= m <= 12,
                day_number(y as int, m as int, 1) + off == target,
                12 * y + m == 12 * y0 + m0 - k,
                0 <= k,
                28 * k <= off - off0,
                k == 0 ==> y == y0 && m == m0 && off == off0,
                k > 0 ==> off < 31,
                y <= y0,
                336 * (y0 - y) <= an + 400,
                off0 >= -an,
                off0 <= an + 30,
                an >= 0,
                add_days_fits(y0, if n >= 0 { an } else { -an }),
                an == (if n >= 0 { n as int } else { -n }),
                1 <= m0 <= 12,
            decreases (if off < 0 {
                0 - off
            } else {
                0
            }),
        {
            proof {
                lemma_prev_month(y as int, m as int);
                k = k + 1;
            }
            if m == 1 {
                y = y - 1;
                m = 12;
                off = off + 31;
            } else {
                m = m - 1;
                off = off + Date::days_in_month_of(y as i32, m) as i64;
            }
        }
        let ghost y1 = y as int;
        let ghost m1 = m as int;
        let ghost off1 = off as int;
        let ghost mut k2: int = 0;
        while off >= Date::days_in_month_of(y as i32, m) as i64
            invariant
                1 <= m <= 12,
                day_number(y as int, m as int, 1) + off == target,
                12 * y + m == 12 * y1 + m1 + k2,
                0 <= k2,
                28 * k2 <= off1 - off,
                0 <= off,
                0 <= off1 <= an + 31,
                y1 <= y0,
                336 * (y0 - y1) <= an + 400,
                y1 <= y,
                336 * (y - y1) <= an + 400,
                an >= 0,
                add_days_fits(y0, if n >= 0 { an } else { -an }),
                an == (if n >= 0 { n as int } else { -n }),
                1 <= m1 <= 12,
            decreases off,
        {
            let dm = Date::days_in_month_of(y as i32, m) as i64;
            proof {
                lemma_next_month(y as int, m as int);
                k2 = k2 + 1;
            }
            if m == 12 {
                y = y + 1;
                m = 1;
            } else {
                m = m + 1;
            }
            off = off - dm;
        }
        Date { year: y as i32, month: m, day: (off + 1) as u32 }
    }
}

} // verus!
