//! Calendar dates and the steps by month and by year.
//!
//! Contracts speak of a date through its view, [`Ymd`], a triple of
//! mathematical integers. A date is valid when its month and day exist in the
//! proleptic Gregorian calendar and its year lies in `MIN_YEAR..=MAX_YEAR`.

use crate::gregorian::{format_iso, local_today};
use vstd::prelude::*;

verus! {

/// The first year the calendar covers.
pub const MIN_YEAR: i32 = -262_143;

/// The last year the calendar covers.
pub const MAX_YEAR: i32 = 262_142;

/// Whether `year` is a leap year of the proleptic Gregorian calendar.
pub open spec fn leap_year(year: int) -> bool {
    year % 4 == 0 && (year % 100 != 0 || year % 400 == 0)
}

/// The number of days of a month. Month numbers outside `1..=12` count as
/// long months.
pub open spec fn days_in_month(year: int, month: int) -> int {
    if month == 4 || month == 6 || month == 9 || month == 11 {
        30
    } else if month == 2 {
        if leap_year(year) {
            29
        } else {
            28
        }
    } else {
        31
    }
}

/// A calendar date as three mathematical integers.
pub struct Ymd {
    pub year: int,
    pub month: int,
    pub day: int,
}

impl Ymd {
    /// The month and the day exist, and the year is one the calendar covers.
    pub open spec fn valid(self) -> bool {
        &&& MIN_YEAR <= self.year <= MAX_YEAR
        &&& 1 <= self.month <= 12
        &&& 1 <= self.day <= days_in_month(self.year, self.month)
    }

    /// The same year and month, with the day brought into the month: a day
    /// below 1 becomes 1, a day past the end becomes the last day.
    pub open spec fn clamped(self) -> Ymd {
        let last = days_in_month(self.year, self.month);
        let day = if self.day < 1 {
            1
        } else if self.day > last {
            last
        } else {
            self.day
        };
        Ymd { year: self.year, month: self.month, day }
    }

    /// The month before this date's month, as `(year, month)`.
    pub open spec fn month_before(self) -> (int, int) {
        if self.month == 1 {
            (self.year - 1, 12)
        } else {
            (self.year, self.month - 1)
        }
    }

    /// The month after this date's month, as `(year, month)`.
    pub open spec fn month_after(self) -> (int, int) {
        if self.month == 12 {
            (self.year + 1, 1)
        } else {
            (self.year, self.month + 1)
        }
    }

    /// The same day one month earlier, or the last day of that month where
    /// it is shorter.
    pub open spec fn pred_month(self) -> Ymd {
        let (year, month) = self.month_before();
        (Ymd { year, month, day: self.day }).clamped()
    }

    /// The same day one month later, or the last day of that month where it
    /// is shorter.
    pub open spec fn succ_month(self) -> Ymd {
        let (year, month) = self.month_after();
        (Ymd { year, month, day: self.day }).clamped()
    }

    /// The same month and day one year earlier; 29 February becomes 28
    /// February where that year has none.
    pub open spec fn pred_year(self) -> Ymd {
        (Ymd { year: self.year - 1, month: self.month, day: self.day }).clamped()
    }

    /// The same month and day one year later; 29 February becomes 28
    /// February where that year has none.
    pub open spec fn succ_year(self) -> Ymd {
        (Ymd { year: self.year + 1, month: self.month, day: self.day }).clamped()
    }
}

/// A calendar date.
#[derive(Clone, Copy, Debug, PartialEq, Eq, Structural)]
pub struct Date {
    pub year: i32,
    pub month: u32,
    pub day: u32,
}

impl View for Date {
    type V = Ymd;

    open spec fn view(&self) -> Ymd {
        Ymd { year: self.year as int, month: self.month as int, day: self.day as int }
    }
}

/// Tells whether `year` is a leap year.
pub fn is_leap_year(year: i32) -> (leap: bool)
    ensures
        leap == leap_year(year as int),
{
    let mod4: bool = year % 4 == 0;
    let mod100: bool = year % 100 == 0;
    let mod400: bool = year % 400 == 0;

    mod4 && (!mod100 || mod400)
}

/// The number of days of `month` in `year`.
pub fn num_days_of_month(year: i32, month: u32) -> (days: u32)
    ensures
        days == days_in_month(year as int, month as int),
        28 <= days <= 31,
{
    match month {
        4 | 6 | 9 | 11 => 30,
        2 => {
            if is_leap_year(year) {
                29
            } else {
                28
            }
        },
        _ => 31,
    }
}

impl Date {
    /// The local date of the system clock. Which day that is depends on the
    /// clock; it is always a valid date.
    pub fn today() -> (today: Date)
        ensures
            today@.valid(),
    {
        local_today()
    }

    /// The date as text, in the form `2022-12-05`.
    pub fn format_date(&self) -> (text: String)
        requires
            self@.valid(),
        ensures
            text@ == self@.iso_text(),
    {
        format_iso(*self)
    }

    /// Makes a date of `year` and `month`, with `day` brought into the month.
    pub fn from_ymd(year: i32, month: u32, day: u32) -> (date: Date)
        requires
            MIN_YEAR <= year <= MAX_YEAR,
            1 <= month <= 12,
        ensures
            date@ == (Ymd { year: year as int, month: month as int, day: day as int }).clamped(),
            date@.valid(),
    {
        let last: u32 = num_days_of_month(year, month);
        let day: u32 = if day < 1 {
            1
        } else if day > last {
            last
        } else {
            day
        };
        Date { year, month, day }
    }

    /// Tells whether this date is valid.
    pub fn is_valid(&self) -> (ok: bool)
        ensures
            ok == self@.valid(),
    {
        MIN_YEAR <= self.year && self.year <= MAX_YEAR && 1 <= self.month && self.month <= 12
            && 1 <= self.day && self.day <= num_days_of_month(self.year, self.month)
    }

    /// Tells whether `year` is a leap year.
    pub fn check_leap_year(&self, year: i32) -> (leap: bool)
        ensures
            leap == leap_year(year as int),
    {
        is_leap_year(year)
    }

    /// The number of days of `month` in `year`.
    pub fn number_days_month(&self, month: u32, year: i32) -> (days: u32)
        ensures
            days == days_in_month(year as int, month as int),
    {
        num_days_of_month(year, month)
    }

    /// The number of days of the month before `month` of `year`.
    pub fn number_days_pred_month(&self, month: u32, year: i32) -> (days: u32)
        requires
            1 <= month,
            month == 1 ==> year > i32::MIN,
        ensures
            ({
                let (y, m) = (Ymd { year: year as int, month: month as int, day: 1 }).month_before();
                days == days_in_month(y, m)
            }),
    {
        if month == 1 {
            self.number_days_month(12, year - 1)
        } else {
            self.number_days_month(month - 1, year)
        }
    }

    /// The number of days of the month after `month` of `year`.
    pub fn number_days_next_month(&self, month: u32, year: i32) -> (days: u32)
        requires
            month < u32::MAX,
            month == 12 ==> year < i32::MAX,
        ensures
            ({
                let (y, m) = (Ymd { year: year as int, month: month as int, day: 1 }).month_after();
                days == days_in_month(y, m)
            }),
    {
        if month == 12 {
            self.number_days_month(1, year + 1)
        } else {
            self.number_days_month(month + 1, year)
        }
    }
}

/// The date one month before `date`, with the day clamped to that month.
pub fn pred_month(date: Date) -> (earlier: Date)
    requires
        date@.valid(),
        !(date.year == MIN_YEAR && date.month == 1),
    ensures
        earlier@ == date@.pred_month(),
        earlier@.valid(),
{
    let (year, month): (i32, u32) = if date.month == 1 {
        (date.year - 1, 12)
    } else {
        (date.year, date.month - 1)
    };
    let last: u32 = num_days_of_month(year, month);
    let day: u32 = if date.day < last {
        date.day
    } else {
        last
    };
    Date { year, month, day }
}

/// The date one month after `date`, with the day clamped to that month.
pub fn succ_month(date: Date) -> (later: Date)
    requires
        date@.valid(),
        !(date.year == MAX_YEAR && date.month == 12),
    ensures
        later@ == date@.succ_month(),
        later@.valid(),
{
    let (year, month): (i32, u32) = if date.month == 12 {
        (date.year + 1, 1)
    } else {
        (date.year, date.month + 1)
    };
    let last: u32 = num_days_of_month(year, month);
    let day: u32 = if date.day < last {
        date.day
    } else {
        last
    };
    Date { year, month, day }
}

/// The date one year before `date`, with the day clamped to the month.
pub fn pred_year(date: Date) -> (earlier: Date)
    requires
        date@.valid(),
        date.year > MIN_YEAR,
    ensures
        earlier@ == date@.pred_year(),
        earlier@.valid(),
{
    let year: i32 = date.year - 1;
    let last: u32 = num_days_of_month(year, date.month);
    let day: u32 = if date.day < last {
        date.day
    } else {
        last
    };
    Date { year, month: date.month, day }
}

/// The date one year after `date`, with the day clamped to the month.
pub fn succ_year(date: Date) -> (later: Date)
    requires
        date@.valid(),
        date.year < MAX_YEAR,
    ensures
        later@ == date@.succ_year(),
        later@.valid(),
{
    let year: i32 = date.year + 1;
    let last: u32 = num_days_of_month(year, date.month);
    let day: u32 = if date.day < last {
        date.day
    } else {
        last
    };
    Date { year, month: date.month, day }
}

/// February has 29 days exactly in leap years.
pub proof fn lemma_february_length(year: int)
    ensures
        days_in_month(year, 2) == 29 <==> leap_year(year),
        days_in_month(year, 2) == 28 <==> !leap_year(year),
{
}

/// Every month has between 28 and 31 days.
pub proof fn lemma_month_length_bounds(year: int, month: int)
    ensures
        28 <= days_in_month(year, month) <= 31,
{
}

/// Stepping a valid date one month forward and then one month back gives
/// the year and month it started from; the day is the day it started
/// from, clamped to the month in between.
pub proof fn lemma_pred_month_of_succ_month(date: Ymd)
    requires
        date.valid(),
    ensures
        date.succ_month().pred_month().year == date.year,
        date.succ_month().pred_month().month == date.month,
        date.succ_month().pred_month().day == date.succ_month().day,
        date.succ_month().day == if date.day <= days_in_month(
            date.month_after().0,
            date.month_after().1,
        ) {
            date.day
        } else {
            days_in_month(date.month_after().0, date.month_after().1)
        },
{
}

/// Stepping a valid date one month back and then one month forward gives
/// the year and month it started from; the day is the day it started
/// from, clamped to the month in between.
pub proof fn lemma_succ_month_of_pred_month(date: Ymd)
    requires
        date.valid(),
    ensures
        date.pred_month().succ_month().year == date.year,
        date.pred_month().succ_month().month == date.month,
        date.pred_month().succ_month().day == date.pred_month().day,
        date.pred_month().day == if date.day <= days_in_month(
            date.month_before().0,
            date.month_before().1,
        ) {
            date.day
        } else {
            days_in_month(date.month_before().0, date.month_before().1)
        },
{
}

/// Stepping a valid date one year forward and then one year back gives the
/// year and month it started from; only 29 February comes back as 28
/// February.
pub proof fn lemma_pred_year_of_succ_year(date: Ymd)
    requires
        date.valid(),
    ensures
        date.succ_year().pred_year().year == date.year,
        date.succ_year().pred_year().month == date.month,
        date.succ_year().pred_year().day == if date.month == 2 && date.day == 29 {
            28
        } else {
            date.day
        },
{
}

} // verus!
