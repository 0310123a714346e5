//! Serial days and the dates of the calendar.
//!
//! Days are numbered as spreadsheets number them from March 1900 on: day
//! 25569 is the first of January 1970. Counted back from there, day 0 is the
//! thirtieth of December 1899.

use vstd::prelude::*;

verus! {

/// The first year of which the calendar speaks.
pub const FIRST_YEAR: u64 = 1899;

/// How many days after the first of January of the first year day 0 lies.
pub const DAY_ZERO: u64 = 363;

/// A day of the calendar.
#[derive(Debug, Clone, Copy, PartialEq, Eq, Structural)]
pub struct Date {
    pub year: u32,
    pub month: u32,
    pub day: u32,
}

/// Whether a year has a twenty-ninth of February.
pub open spec fn leap(y: int) -> bool {
    (y % 4 == 0 && y % 100 != 0) || y % 400 == 0
}

/// The days of a year.
pub open spec fn year_length(y: int) -> int {
    if leap(y) {
        366
    } else {
        365
    }
}

/// The days of a month.
pub open spec fn month_length(y: int, m: int) -> int {
    if m == 2 {
        if leap(y) {
            29
        } else {
            28
        }
    } else if m == 4 || m == 6 || m == 9 || m == 11 {
        30
    } else {
        31
    }
}

/// The days from the first of January of the first year to the first of
/// January of year `y`.
pub open spec fn days_before_year(y: int) -> int
    decreases y - FIRST_YEAR,
{
    if y <= FIRST_YEAR {
        0
    } else {
        days_before_year(y - 1) + year_length(y - 1)
    }
}

/// The days from the first of January of year `y` to the first of month `m`.
pub open spec fn days_before_month(y: int, m: int) -> int
    decreases m,
{
    if m <= 1 {
        0
    } else {
        days_before_month(y, m - 1) + month_length(y, m - 1)
    }
}

impl Date {
    /// Whether the calendar has the date.
    pub open spec fn valid(self) -> bool {
        &&& self.year >= FIRST_YEAR
        &&& 1 <= self.month <= 12
        &&& 1 <= self.day <= month_length(self.year as int, self.month as int)
    }

    /// The days from the first of January of the first year to the date.
    pub open spec fn day_number(self) -> int {
        days_before_year(self.year as int) + days_before_month(self.year as int, self.month as int)
            + self.day - 1
    }

    /// Whether the date is the day of a serial number.
    pub open spec fn is_day(self, serial: int) -> bool {
        self.valid() && self.day_number() == serial + DAY_ZERO
    }

    /// Whether the date is the last day of a February.
    pub open spec fn ends_february(self) -> bool {
        self.month == 2 && self.day == month_length(self.year as int, 2)
    }
}

/// The date of a serial day.
pub open spec fn date_of(serial: int) -> Date {
    choose|d: Date| d.is_day(serial)
}

/// The leap years up to and with year `y`, counted from the year 1.
pub open spec fn leaps_through(y: int) -> int {
    y / 4 - y / 100 + y / 400
}

/// The days before a year, without counting year by year.
pub proof fn lemma_days_before_year(y: int)
    requires
        y >= FIRST_YEAR,
    ensures
        days_before_year(y) == 365 * (y - FIRST_YEAR) + leaps_through(y - 1) - leaps_through(
            FIRST_YEAR - 1,
        ),
        365 * (y - FIRST_YEAR) <= days_before_year(y) <= 366 * (y - FIRST_YEAR),
    decreases y - FIRST_YEAR,
{
    if y > FIRST_YEAR {
        lemma_days_before_year(y - 1);
        assert(leaps_through(y - 1) - leaps_through(y - 2) == if leap(y - 1) { 1int } else { 0int });
    }
}

/// Later years have more days before them.
pub proof fn lemma_years_in_order(a: int, b: int)
    requires
        FIRST_YEAR <= a < b,
    ensures
        days_before_year(a) + year_length(a) <= days_before_year(b),
    decreases b - a,
{
    if a + 1 < b {
        lemma_years_in_order(a, b - 1);
    }
}

/// The days before each month of a year.
pub proof fn lemma_days_before_month(y: int)
    ensures
        days_before_month(y, 1) == 0,
        days_before_month(y, 2) == 31,
        days_before_month(y, 3) == year_length(y) - 306,
        days_before_month(y, 4) == year_length(y) - 275,
        days_before_month(y, 5) == year_length(y) - 245,
        days_before_month(y, 6) == year_length(y) - 214,
        days_before_month(y, 7) == year_length(y) - 184,
        days_before_month(y, 8) == year_length(y) - 153,
        days_before_month(y, 9) == year_length(y) - 122,
        days_before_month(y, 10) == year_length(y) - 92,
        days_before_month(y, 11) == year_length(y) - 61,
        days_before_month(y, 12) == year_length(y) - 31,
        days_before_month(y, 13) == year_length(y),
{
    reveal_with_fuel(days_before_month, 14);
}

/// Each serial day has one date.
pub proof fn lemma_one_date_a_day(a: Date, b: Date, serial: int)
    requires
        a.is_day(serial),
        b.is_day(serial),
    ensures
        a == b,
{
    lemma_days_before_month(a.year as int);
    lemma_days_before_month(b.year as int);
    if a.year < b.year {
        lemma_years_in_order(a.year as int, b.year as int);
    } else if b.year < a.year {
        lemma_years_in_order(b.year as int, a.year as int);
    }
}

/// Whether a year has a twenty-ninth of February.
pub fn is_leap(y: u64) -> (b: bool)
    ensures
        b == leap(y as int),
{
    (y % 4 == 0 && y % 100 != 0) || y % 400 == 0
}

/// The days of a month.
pub fn days_in_month(y: u64, m: u64) -> (n: u64)
    ensures
        n == month_length(y as int, m as int),
{
    if m == 2 {
        if is_leap(y) {
            29
        } else {
            28
        }
    } else if m == 4 || m == 6 || m == 9 || m == 11 {
        30
    } else {
        31
    }
}

/// The days of a year.
pub fn days_in_year(y: u64) -> (n: u64)
    ensures
        n == year_length(y as int),
{
    if is_leap(y) {
        366
    } else {
        365
    }
}

/// The days from the first of January of the first year to the first of
/// January of a year.
fn days_to_year(y: u64) -> (n: u64)
    requires
        FIRST_YEAR <= y <= 0x2_0000_0000,
    ensures
        n == days_before_year(y as int),
{
    proof {
        lemma_days_before_year(y as int);
    }
    let leaps: u64 = (y - 1) / 4 - (y - 1) / 100 + (y - 1) / 400;
    365 * (y - FIRST_YEAR) + leaps - 460
}

/// The year in which a day lies that comes `n` days after the first of
/// January of the first year, and the days before that year.
fn year_of(n: u64) -> (res: (u64, u64))
    requires
        n <= 0x2_0000_0000,
    ensures
        FIRST_YEAR <= res.0 <= FIRST_YEAR + n / 365,
        res.1 == days_before_year(res.0 as int),
        res.1 <= n < res.1 + year_length(res.0 as int),
{
    let mut year: u64 = FIRST_YEAR + n / 366;
    let mut before: u64 = days_to_year(year);
    proof {
        lemma_days_before_year(year as int);
    }
    while n - before >= days_in_year(year)
        invariant
            FIRST_YEAR <= year,
            before == days_before_year(year as int),
            365 * (year - FIRST_YEAR) <= before <= n <= 0x2_0000_0000,
        decreases n - before,
    {
        before = before + days_in_year(year);
        year = year + 1;
        proof {
            lemma_days_before_year(year as int);
        }
    }
    (year, before)
}

/// The month and the day of the month of the day that comes `rest` days
/// after the first of January of a year.
fn month_of(year: u64, rest: u64) -> (res: (u64, u64))
    requires
        rest < year_length(year as int),
    ensures
        1 <= res.0 <= 12,
        1 <= res.1 <= month_length(year as int, res.0 as int),
        days_before_month(year as int, res.0 as int) + res.1 - 1 == rest,
{
    let mut left: u64 = rest;
    let mut month: u64 = 1;
    proof {
        lemma_days_before_month(year as int);
    }
    while left >= days_in_month(year, month)
        invariant
            1 <= month <= 12,
            left + days_before_month(year as int, month as int) == rest,
            rest < year_length(year as int),
        decreases 12 - month,
    {
        proof {
            lemma_days_before_month(year as int);
        }
        left = left - days_in_month(year, month);
        month = month + 1;
    }
    (month, left + 1)
}

/// The date of a serial day.
pub fn civil(serial: u32) -> (d: Date)
    ensures
        d.is_day(serial as int),
        d == date_of(serial as int),
        d.year <= FIRST_YEAR + (serial + DAY_ZERO) / 365,
{
    let n: u64 = serial as u64 + DAY_ZERO;
    let year: (u64, u64) = year_of(n);
    let month: (u64, u64) = month_of(year.0, n - year.1);
    let d = Date { year: year.0 as u32, month: month.0 as u32, day: month.1 as u32 };
    proof {
        assert(d.is_day(serial as int));
        lemma_one_date_a_day(d, date_of(serial as int), serial as int);
    }
    d
}

} // verus!
