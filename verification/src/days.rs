//! Counting days: the number of each day, the weekday, and the steps by day
//! and by week.
//!
//! Days are numbered through the proleptic Gregorian calendar, day 1 being
//! 1 January of year 1, a Monday.

use crate::date::{days_in_month, leap_year, Date, Ymd, MAX_YEAR, MIN_YEAR};
use crate::gregorian::shift_days;
use vstd::prelude::*;

verus! {

/// The number of days in the years before `year`, counted from year 1.
pub open spec fn days_before_year(year: int) -> int {
    let y = year - 1;
    365 * y + y / 4 - y / 100 + y / 400
}

/// The number of days of `year` in the months before `month`.
pub open spec fn days_before_month(year: int, month: int) -> int
    decreases month,
{
    if month <= 1 {
        0
    } else {
        days_before_month(year, month - 1) + days_in_month(year, month - 1)
    }
}

impl Ymd {
    /// The month and the day exist, whatever the year.
    pub open spec fn well_formed(self) -> bool {
        &&& 1 <= self.month <= 12
        &&& 1 <= self.day <= days_in_month(self.year, self.month)
    }

    /// The number of this day, 1 January of year 1 being day 1.
    pub open spec fn day_number(self) -> int {
        days_before_year(self.year) + days_before_month(self.year, self.month) + self.day
    }

    /// The weekday as the number of days since Monday: 0 for Monday, 6 for
    /// Sunday.
    pub open spec fn weekday(self) -> int {
        (self.day_number() - 1) % 7
    }

    /// Whether this date comes before `other`.
    pub open spec fn before(self, other: Ymd) -> bool {
        ||| self.year < other.year
        ||| self.year == other.year && self.month < other.month
        ||| self.year == other.year && self.month == other.month && self.day < other.day
    }

    /// The day after this one.
    pub open spec fn next_day(self) -> Ymd {
        if self.day < days_in_month(self.year, self.month) {
            Ymd { day: self.day + 1, ..self }
        } else {
            let (year, month) = self.month_after();
            Ymd { year, month, day: 1 }
        }
    }

    /// The day before this one.
    pub open spec fn prev_day(self) -> Ymd {
        if self.day > 1 {
            Ymd { day: self.day - 1, ..self }
        } else {
            let (year, month) = self.month_before();
            Ymd { year, month, day: days_in_month(year, month) }
        }
    }

    /// The day `n` days after this one, or `-n` days before it where `n` is
    /// negative, reached one day at a time.
    pub open spec fn plus_days(self, n: int) -> Ymd
        decreases
            (if n < 0 {
                -n
            } else {
                n
            }),
    {
        if n > 0 {
            self.plus_days(n - 1).next_day()
        } else if n < 0 {
            self.plus_days(n + 1).prev_day()
        } else {
            self
        }
    }

    /// The first day the calendar covers.
    pub open spec fn first() -> Ymd {
        Ymd { year: MIN_YEAR as int, month: 1, day: 1 }
    }

    /// The last day the calendar covers.
    pub open spec fn last() -> Ymd {
        Ymd { year: MAX_YEAR as int, month: 12, day: 31 }
    }
}

/// The days before each month, written out.
pub proof fn lemma_days_before_month(year: int, month: int)
    requires
        1 <= month <= 13,
    ensures
        days_before_month(year, month) == (if month == 1 {
            0int
        } else if month == 2 {
            31
        } else if month == 3 {
            59
        } else if month == 4 {
            90
        } else if month == 5 {
            120
        } else if month == 6 {
            151
        } else if month == 7 {
            181
        } else if month == 8 {
            212
        } else if month == 9 {
            243
        } else if month == 10 {
            273
        } else if month == 11 {
            304
        } else if month == 12 {
            334
        } else {
            365
        }) + (if month > 2 && leap_year(year) {
            1int
        } else {
            0
        }),
{
    reveal_with_fuel(days_before_month, 14);
}

/// A year has 365 days, and 366 where it is a leap year.
pub proof fn lemma_year_length(year: int)
    ensures
        days_before_year(year + 1) - days_before_year(year) == days_before_month(year, 13),
        days_before_month(year, 13) == if leap_year(year) {
            366int
        } else {
            365
        },
{
    lemma_days_before_month(year, 13);
}

/// Later years start on later days.
pub proof fn lemma_years_in_order(a: int, b: int)
    requires
        a <= b,
    ensures
        days_before_year(a) + 365 * (b - a) <= days_before_year(b),
    decreases b - a,
{
    if a < b {
        lemma_years_in_order(a, b - 1);
        lemma_year_length(b - 1);
    }
}

/// The day after a day of the calendar is a day of the calendar, and its
/// number is one more.
pub proof fn lemma_next_day(date: Ymd)
    requires
        date.well_formed(),
    ensures
        date.next_day().well_formed(),
        date.next_day().day_number() == date.day_number() + 1,
        date.next_day().prev_day() == date,
{
    lemma_days_before_month(date.year, date.month);
    lemma_days_before_month(date.year, date.month + 1);
    lemma_year_length(date.year);
}

/// The day before a day of the calendar is a day of the calendar, and its
/// number is one less.
pub proof fn lemma_prev_day(date: Ymd)
    requires
        date.well_formed(),
    ensures
        date.prev_day().well_formed(),
        date.prev_day().day_number() == date.day_number() - 1,
        date.prev_day().next_day() == date,
{
    lemma_days_before_month(date.year, date.month);
    if date.month > 1 {
        lemma_days_before_month(date.year, date.month - 1);
    } else {
        lemma_days_before_month(date.year - 1, 12);
        lemma_year_length(date.year - 1);
    }
}

/// The weekdays follow one another: the day after a Sunday is a Monday,
/// and the day after any other day falls on the next weekday.
pub proof fn lemma_weekdays_in_turn(date: Ymd)
    requires
        date.well_formed(),
    ensures
        0 <= date.weekday() < 7,
        date.next_day().weekday() == (date.weekday() + 1) % 7,
        date.plus_days(7).weekday() == date.weekday(),
{
    lemma_next_day(date);
    lemma_plus_days(date, 7);
}

/// An earlier day of the calendar has a smaller number.
pub proof fn lemma_day_numbers_in_order(a: Ymd, b: Ymd)
    requires
        a.well_formed(),
        b.well_formed(),
        a.before(b),
    ensures
        a.day_number() < b.day_number(),
{
    lemma_days_before_month(a.year, a.month);
    lemma_days_before_month(a.year, a.month + 1);
    lemma_days_before_month(b.year, b.month);
    if a.year < b.year {
        lemma_year_length(a.year);
        lemma_years_in_order(a.year + 1, b.year);
    }
}

/// Two days of the calendar with the same number are the same day.
pub proof fn lemma_day_number_names_one_day(a: Ymd, b: Ymd)
    requires
        a.well_formed(),
        b.well_formed(),
        a.day_number() == b.day_number(),
    ensures
        a == b,
{
    if a.before(b) {
        lemma_day_numbers_in_order(a, b);
    }
    if b.before(a) {
        lemma_day_numbers_in_order(b, a);
    }
}

/// The day `n` days away is a day of the calendar, and its number differs
/// by `n`.
pub proof fn lemma_plus_days(date: Ymd, n: int)
    requires
        date.well_formed(),
    ensures
        date.plus_days(n).well_formed(),
        date.plus_days(n).day_number() == date.day_number() + n,
    decreases
        (if n < 0 {
            -n
        } else {
            n
        }),
{
    if n > 0 {
        lemma_plus_days(date, n - 1);
        lemma_next_day(date.plus_days(n - 1));
    } else if n < 0 {
        lemma_plus_days(date, n + 1);
        lemma_prev_day(date.plus_days(n + 1));
    }
}

/// Going `n` days on and then `n` days back ends on the day it started
/// from.
pub proof fn lemma_plus_days_undone(date: Ymd, n: int)
    requires
        date.well_formed(),
    ensures
        date.plus_days(n).plus_days(-n) == date,
{
    lemma_plus_days(date, n);
    lemma_plus_days(date.plus_days(n), -n);
    lemma_day_number_names_one_day(date.plus_days(n).plus_days(-n), date);
}

/// A day of the calendar lies in a year the calendar covers exactly when
/// its number lies between those of the first and the last day.
pub proof fn lemma_covered_days(date: Ymd)
    requires
        date.well_formed(),
    ensures
        date.valid() <==> Ymd::first().day_number() <= date.day_number()
            <= Ymd::last().day_number(),
{
    let first = Ymd::first();
    let last = Ymd::last();
    if date.before(first) {
        lemma_day_numbers_in_order(date, first);
    }
    if first.before(date) {
        lemma_day_numbers_in_order(first, date);
    }
    if date.before(last) {
        lemma_day_numbers_in_order(date, last);
    }
    if last.before(date) {
        lemma_day_numbers_in_order(last, date);
    }
}

/// The day before `date`.
pub fn pred_day(date: Date) -> (earlier: Date)
    requires
        date@.valid(),
        date@ != Ymd::first(),
    ensures
        earlier@ == date@.prev_day(),
        earlier@.valid(),
{
    proof {
        lemma_day_numbers_in_order(Ymd::first(), date@);
        lemma_covered_days(date@);
        lemma_prev_day(date@);
    }
    let earlier: Date = shift_days(date, -1);
    proof {
        lemma_day_number_names_one_day(earlier@, date@.prev_day());
    }
    earlier
}

/// The day after `date`.
pub fn succ_day(date: Date) -> (later: Date)
    requires
        date@.valid(),
        date@ != Ymd::last(),
    ensures
        later@ == date@.next_day(),
        later@.valid(),
{
    proof {
        lemma_day_numbers_in_order(date@, Ymd::last());
        lemma_covered_days(date@);
        lemma_next_day(date@);
    }
    let later: Date = shift_days(date, 1);
    proof {
        lemma_day_number_names_one_day(later@, date@.next_day());
    }
    later
}

/// The day seven days before `date`.
pub fn pred_week(date: Date) -> (earlier: Date)
    requires
        date@.valid(),
        !(date.year == MIN_YEAR && date.month == 1 && date.day <= 7),
    ensures
        earlier@ == date@.plus_days(-7),
        earlier@.valid(),
{
    proof {
        let eighth = Ymd { year: MIN_YEAR as int, month: 1, day: 8 };
        if eighth.before(date@) {
            lemma_day_numbers_in_order(eighth, date@);
        }
        lemma_covered_days(date@);
        lemma_plus_days(date@, -7);
    }
    let earlier: Date = shift_days(date, -7);
    proof {
        lemma_day_number_names_one_day(earlier@, date@.plus_days(-7));
    }
    earlier
}

/// The day seven days after `date`.
pub fn succ_week(date: Date) -> (later: Date)
    requires
        date@.valid(),
        !(date.year == MAX_YEAR && date.month == 12 && date.day > 24),
    ensures
        later@ == date@.plus_days(7),
        later@.valid(),
{
    proof {
        let eve = Ymd { year: MAX_YEAR as int, month: 12, day: 24 };
        if date@.before(eve) {
            lemma_day_numbers_in_order(date@, eve);
        }
        lemma_covered_days(date@);
        lemma_plus_days(date@, 7);
    }
    let later: Date = shift_days(date, 7);
    proof {
        lemma_day_number_names_one_day(later@, date@.plus_days(7));
    }
    later
}

} // verus!
