use chrono::Datelike;
use vstd::prelude::*;

verus! {

/// Smallest year that a calendar date may carry.
pub const MIN_YEAR: i32 = -262143;

/// Largest year that a calendar date may carry.
pub const MAX_YEAR: i32 = 262142;

/// A day of the proleptic Gregorian calendar.
#[derive(Clone, Copy, Debug, PartialEq, Eq, Structural)]
pub struct Date {
    pub year: i32,
    pub month: u32,
    pub day: u32,
}

pub open spec fn is_leap_year(year: int) -> bool {
    year % 4 == 0 && (year % 100 != 0 || year % 400 == 0)
}

/// Number of days of a month, for `1 <= month <= 12`.
pub open spec fn days_in_month(year: int, month: int) -> int {
    if month == 2 {
        if is_leap_year(year) { 29 } else { 28 }
    } else if month == 4 || month == 6 || month == 9 || month == 11 {
        30
    } else {
        31
    }
}

/// Whether the three numbers name an existing day within the supported years.
pub open spec fn is_valid_ymd(year: int, month: int, day: int) -> bool {
    &&& MIN_YEAR <= year <= MAX_YEAR
    &&& 1 <= month <= 12
    &&& 1 <= day <= days_in_month(year, month)
}

/// Months elapsed since January of year 0.
pub open spec fn month_index(year: int, month: int) -> int {
    year * 12 + (month - 1)
}

/// Calendar order.
pub open spec fn date_lt(a: Date, b: Date) -> bool {
    ||| a.year < b.year
    ||| (a.year == b.year && a.month < b.month)
    ||| (a.year == b.year && a.month == b.month && a.day < b.day)
}

pub open spec fn date_le(a: Date, b: Date) -> bool {
    date_lt(a, b) || a == b
}

/// The date `months` months before `d`, its day clamped to the length of the
/// month it lands in; `None` when that month lies outside the supported years.
pub open spec fn months_back(d: Date, months: int) -> Option<Date> {
    let t = month_index(d.year as int, d.month as int) - months;
    let year = t / 12;
    let month = t % 12 + 1;
    let dim = days_in_month(year, month);
    let day = if d.day > dim { dim } else { d.day as int };
    if MIN_YEAR <= year <= MAX_YEAR {
        Some(Date { year: year as i32, month: month as u32, day: day as u32 })
    } else {
        None
    }
}

impl Date {
    pub open spec fn wf(self) -> bool {
        is_valid_ymd(self.year as int, self.month as int, self.day as int)
    }

    pub open spec fn index(self) -> int {
        month_index(self.year as int, self.month as int)
    }

    /// The date with these numbers, when it exists.
    pub fn from_ymd_opt(year: i32, month: u32, day: u32) -> (r: Option<Date>)
        ensures
            r == (if is_valid_ymd(year as int, month as int, day as int) {
                Some(Date { year, month, day })
            } else {
                None
            }),
    {
        if year < MIN_YEAR || year > MAX_YEAR || month < 1 || month > 12 || day < 1 {
            return None;
        }
        if day > ndays_in_month(year, month) {
            None
        } else {
            Some(Date { year, month, day })
        }
    }

    /// Whether `self` comes before `other` or is the same day.
    pub fn le(&self, other: &Date) -> (r: bool)
        ensures
            r == date_le(*self, *other),
    {
        if self.year != other.year {
            self.year < other.year
        } else if self.month != other.month {
            self.month < other.month
        } else {
            self.day <= other.day
        }
    }
}

pub fn is_leap(year: i32) -> (r: bool)
    ensures
        r == is_leap_year(year as int),
{
    year % 4 == 0 && (year % 100 != 0 || year % 400 == 0)
}

/// Number of days in the given month of the given year.
pub fn ndays_in_month(year: i32, month: u32) -> (r: u32)
    requires
        1 <= month <= 12,
    ensures
        r == days_in_month(year as int, month as int),
{
    if month == 2 {
        if is_leap(year) {
            29
        } else {
            28
        }
    } else if month == 4 || month == 6 || month == 9 || month == 11 {
        30
    } else {
        31
    }
}

/// Relies on chrono's `NaiveDate::checked_sub_months`: it steps back the
/// given number of months, clamps the day to the last day of the month it
/// lands in, and returns `None` outside chrono's range of years.
#[verifier::external_body]
pub(crate) fn sub_months(d: &Date, months: u32) -> (r: Option<Date>)
    requires
        d.wf(),
    ensures
        r == months_back(*d, months as int),
{
    let nd = chrono::NaiveDate::from_ymd_opt(d.year, d.month, d.day).unwrap();
    nd.checked_sub_months(chrono::Months::new(months)).map(
        |p| Date { year: p.year(), month: p.month(), day: p.day() },
    )
}

/// A date `months_back` returns is valid, and for a positive step it comes
/// strictly before the date it started from, `months` months earlier.
pub proof fn lemma_months_back(d: Date, months: int)
    requires
        d.wf(),
        months >= 1,
        months_back(d, months) is Some,
    ensures
        months_back(d, months).unwrap().wf(),
        months_back(d, months).unwrap().index() == d.index() - months,
        date_lt(months_back(d, months).unwrap(), d),
{
    let t = d.index() - months;
    let p = months_back(d, months).unwrap();
    vstd::arithmetic::div_mod::lemma_fundamental_div_mod(t, 12);
    assert(0 <= t % 12 < 12);
    assert(p.index() == t);
    if p.year > d.year {
        assert(p.year * 12 >= d.year * 12 + 12) by (nonlinear_arith)
            requires
                p.year > d.year,
        ;
    } else if p.year == d.year {
        assert(p.year * 12 == d.year * 12);
    }
}

} // verus!
