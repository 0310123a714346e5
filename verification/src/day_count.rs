//! The day-count conventions of the bond functions.

use vstd::prelude::*;
use crate::calendar::{civil, date_of, days_in_month, Date};

verus! {

/// A rule for counting the days between two dates and the part of a year
/// that they make. Bond functions take it as a code from 0 to 4.
#[allow(non_camel_case_types)]
#[derive(Debug, Clone, Copy, PartialEq, Eq, Structural, Hash)]
pub enum DayCountConvention {
    /// Code 0: months of thirty days in a year of 360, by the US rule.
    UsPsa30_360,
    /// Code 1: the days as they are, in the year as it is.
    ActualActual,
    /// Code 2: the days as they are, in a year of 360.
    Actual360,
    /// Code 3: the days as they are, in a year of 365.
    Actual365,
    /// Code 4: months of thirty days in a year of 360, by the European rule.
    Europe30_360,
}

/// The days between two dates where every month counts for thirty days and
/// the two days of the month count as given.
pub open spec fn thirty_day_months(s: Date, first: int, e: Date, second: int) -> int {
    (e.year - s.year) * 360 + (e.month - s.month) * 30 + (second - first)
}

impl DayCountConvention {
    /// The convention that a code selects, if any.
    pub open spec fn of_code(code: int) -> Option<DayCountConvention> {
        if code == 0 {
            Some(DayCountConvention::UsPsa30_360)
        } else if code == 1 {
            Some(DayCountConvention::ActualActual)
        } else if code == 2 {
            Some(DayCountConvention::Actual360)
        } else if code == 3 {
            Some(DayCountConvention::Actual365)
        } else if code == 4 {
            Some(DayCountConvention::Europe30_360)
        } else {
            None
        }
    }

    /// The code of a convention.
    pub open spec fn code_of(self) -> int {
        match self {
            DayCountConvention::UsPsa30_360 => 0,
            DayCountConvention::ActualActual => 1,
            DayCountConvention::Actual360 => 2,
            DayCountConvention::Actual365 => 3,
            DayCountConvention::Europe30_360 => 4,
        }
    }

    /// The convention that applies where none is asked for.
    pub open spec fn standard() -> DayCountConvention {
        DayCountConvention::UsPsa30_360
    }

    /// The days from one serial day to another, as the convention counts
    /// them. The conventions of actual days count the days as they are. The
    /// two of thirty-day months take each month for thirty days: the
    /// European rule counts a thirty-first as a thirtieth; the US rule
    /// counts the first day so if it is a thirty-first or the last of a
    /// February, and the second day so if it is a thirty-first and the first
    /// counts as a thirtieth.
    pub open spec fn days(self, start: int, end: int) -> int {
        let s = date_of(start);
        let e = date_of(end);
        match self {
            DayCountConvention::UsPsa30_360 => {
                let first: int = if s.day == 31 || s.ends_february() { 30 } else { s.day as int };
                let second: int = if e.day == 31 && first == 30 { 30 } else { e.day as int };
                thirty_day_months(s, first, e, second)
            },
            DayCountConvention::Europe30_360 => thirty_day_months(
                s,
                if s.day > 30 { 30 } else { s.day as int },
                e,
                if e.day > 30 { 30 } else { e.day as int },
            ),
            _ => end - start,
        }
    }

    /// The days from one serial day to another, as the convention counts
    /// them.
    pub fn days_between(&self, start: u32, end: u32) -> (n: i64)
        ensures
            n == self.days(start as int, end as int),
    {
        match self {
            DayCountConvention::UsPsa30_360 => {
                let s: Date = civil(start);
                let e: Date = civil(end);
                let last: u64 = days_in_month(s.year as u64, 2);
                let first: i64 = if s.day == 31 || (s.month == 2 && s.day as u64 == last) {
                    30
                } else {
                    s.day as i64
                };
                let second: i64 = if e.day == 31 && first == 30 { 30 } else { e.day as i64 };
                let years: i64 = e.year as i64 - s.year as i64;
                let months: i64 = e.month as i64 - s.month as i64;
                years * 360 + months * 30 + (second - first)
            },
            DayCountConvention::Europe30_360 => {
                let s: Date = civil(start);
                let e: Date = civil(end);
                let first: i64 = if s.day > 30 { 30 } else { s.day as i64 };
                let second: i64 = if e.day > 30 { 30 } else { e.day as i64 };
                let years: i64 = e.year as i64 - s.year as i64;
                let months: i64 = e.month as i64 - s.month as i64;
                years * 360 + months * 30 + (second - first)
            },
            _ => end as i64 - start as i64,
        }
    }

    /// The convention that a code selects: one for each code from 0 to 4,
    /// none for any other.
    pub fn from_code(code: u32) -> (res: Option<DayCountConvention>)
        ensures
            res == Self::of_code(code as int),
            res is Some <==> code <= 4,
    {
        match code {
            0 => Some(DayCountConvention::UsPsa30_360),
            1 => Some(DayCountConvention::ActualActual),
            2 => Some(DayCountConvention::Actual360),
            3 => Some(DayCountConvention::Actual365),
            4 => Some(DayCountConvention::Europe30_360),
            _ => None,
        }
    }

    /// The code of a convention.
    pub fn code(&self) -> (c: u32)
        ensures
            c == self.code_of(),
            Self::of_code(c as int) == Some(*self),
    {
        match self {
            DayCountConvention::UsPsa30_360 => 0,
            DayCountConvention::ActualActual => 1,
            DayCountConvention::Actual360 => 2,
            DayCountConvention::Actual365 => 3,
            DayCountConvention::Europe30_360 => 4,
        }
    }

    /// Different codes from 0 to 4 select different conventions, and code 0
    /// selects the one that applies where none is asked for.
    pub proof fn lemma_codes_select_distinct(a: int, b: int)
        requires
            0 <= a <= 4,
            0 <= b <= 4,
        ensures
            Self::of_code(a) is Some,
            Self::of_code(a).unwrap().code_of() == a,
            a != b ==> Self::of_code(a) != Self::of_code(b),
            Self::of_code(0) == Some(Self::standard()),
    {
    }

    /// Every convention is selected by its own code, which lies from 0 to 4.
    pub proof fn lemma_every_convention_has_a_code(c: DayCountConvention)
        ensures
            0 <= c.code_of() <= 4,
            Self::of_code(c.code_of()) == Some(c),
    {
    }
}

} // verus!
