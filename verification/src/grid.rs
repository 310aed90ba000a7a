//! The month grid: which day each cell shows.
//!
//! The grid has six rows of seven cells, Monday to Sunday. Cells are counted
//! row by row from 0: the cell in column `x` of row `y` is cell `x + 7 * y`.

use crate::date::{days_in_month, num_days_of_month, Date, Ymd, MAX_YEAR, MIN_YEAR};
use crate::days::{lemma_next_day, lemma_prev_day, pred_day};
use crate::gregorian::weekday_from_monday;
use vstd::prelude::*;

verus! {

/// The month a cell's day belongs to, seen from the displayed month.
#[derive(Clone, Copy, Debug, PartialEq, Eq, Structural)]
pub enum IsInMonth {
    /// A day of the month before.
    Previous,
    /// A day of the displayed month.
    Same,
    /// A day of the month after.
    Next,
}

/// The number of cells in the grid.
pub open spec fn grid_cells() -> nat {
    42
}

/// The number of cells before the one that shows day 1: as many as there
/// are days from Monday to the weekday of day 1, so one for a Tuesday and
/// six for a Sunday; and seven for a Monday, so that such a month begins in
/// the second row. Day 1 thus always stands in the column of its weekday,
/// and the first cell always shows a day of the month before.
pub open spec fn first_day_offset(year: int, month: int) -> int {
    let weekday = (Ymd { year, month, day: 1 }).weekday();
    if weekday == 0 {
        7
    } else {
        weekday
    }
}

/// The day that `cell` shows when day 1 stands `offset` cells into the
/// grid. Cells before day 1 show the last days of the month before; cells
/// past the last day show the first days of the month after.
pub open spec fn cell_day(cell: int, offset: int, year: int, month: int) -> (int, IsInMonth) {
    let day = cell + 1 - offset;
    let (year_before, month_before) = (Ymd { year, month, day: 1 }).month_before();
    if day < 1 {
        (days_in_month(year_before, month_before) + day, IsInMonth::Previous)
    } else if day > days_in_month(year, month) {
        (day - days_in_month(year, month), IsInMonth::Next)
    } else {
        (day, IsInMonth::Same)
    }
}

/// The day that the cell in column `x` of row `y` shows for `month` of
/// `year`.
pub open spec fn grid_day(x: int, y: int, year: int, month: int) -> (int, IsInMonth) {
    cell_day(x + 7 * y, first_day_offset(year, month), year, month)
}

/// The days of the displayed month that the first `cells` cells show, in
/// the order of the cells, row by row.
pub open spec fn same_month_days(year: int, month: int, cells: nat) -> Seq<int>
    decreases cells,
{
    if cells == 0 {
        Seq::empty()
    } else {
        let before = same_month_days(year, month, (cells - 1) as nat);
        let (day, part) = grid_day((cells - 1) % 7, (cells - 1) / 7, year, month);
        if part is Same {
            before.push(day)
        } else {
            before
        }
    }
}

/// The day that the cell in column `x` of row `y` shows for `month` of
/// `year`, and the month that day belongs to.
pub fn position_to_day(x: usize, y: usize, year: i32, month: u32) -> (shown: (usize, IsInMonth))
    requires
        MIN_YEAR <= year <= MAX_YEAR,
        1 <= month <= 12,
        x + 7 * y < usize::MAX,
        grid_day(x as int, y as int, year as int, month as int).1 is Previous ==> !(year
            == MIN_YEAR && month == 1),
    ensures
        shown.0 == grid_day(x as int, y as int, year as int, month as int).0,
        shown.1 == grid_day(x as int, y as int, year as int, month as int).1,
{
    let first_day: Date = Date { year, month, day: 1 };
    let weekday: u32 = weekday_from_monday(first_day);
    let offset: usize = if weekday == 0 {
        7
    } else {
        weekday as usize
    };
    let cell: usize = x + 7 * y;
    let last: usize = num_days_of_month(year, month) as usize;

    if cell < offset {
        let last_month: Date = pred_day(first_day);
        let before: usize = num_days_of_month(last_month.year, last_month.month) as usize;
        (before + cell + 1 - offset, IsInMonth::Previous)
    } else if cell + 1 - offset > last {
        (cell + 1 - offset - last, IsInMonth::Next)
    } else {
        (cell + 1 - offset, IsInMonth::Same)
    }
}

/// Day 1 stands one to seven cells into the grid.
pub proof fn lemma_first_day_offset(year: int, month: int)
    ensures
        1 <= first_day_offset(year, month) <= 7,
{
}

/// The date that the cell in column `x` of row `y` shows for `month` of
/// `year`: the day that [`grid_day`] gives, in the month it names.
pub open spec fn grid_date(x: int, y: int, year: int, month: int) -> Ymd {
    let (day, part) = grid_day(x, y, year, month);
    let displayed = Ymd { year, month, day: 1 };
    match part {
        IsInMonth::Previous => {
            let (year_before, month_before) = displayed.month_before();
            Ymd { year: year_before, month: month_before, day }
        },
        IsInMonth::Same => Ymd { year, month, day },
        IsInMonth::Next => {
            let (year_after, month_after) = displayed.month_after();
            Ymd { year: year_after, month: month_after, day }
        },
    }
}

/// Each cell of the grid shows a day that exists, and from cell to cell the
/// days follow one another without a gap, through the end of the month
/// before and into the month after.
pub proof fn lemma_cells_follow_one_another(x: int, y: int, year: int, month: int)
    requires
        0 <= x < 7,
        0 <= y < 6,
        1 <= month <= 12,
    ensures
        grid_date(x, y, year, month).well_formed(),
        grid_date(x, y, year, month).day_number() == (Ymd { year, month, day: 1 }).day_number()
            + (x + 7 * y) - first_day_offset(year, month),
{
    let displayed = Ymd { year, month, day: 1 };
    let last = Ymd { year, month, day: days_in_month(year, month) };
    let (day, part) = grid_day(x, y, year, month);
    lemma_first_day_offset(year, month);
    match part {
        IsInMonth::Previous => {
            lemma_prev_day(displayed);
        },
        IsInMonth::Same => {},
        IsInMonth::Next => {
            lemma_next_day(last);
        },
    }
}

/// A number that lies a whole number of weeks and `x` days after a
/// multiple of seven leaves `x` when divided by seven.
proof fn lemma_days_into_week(number: int, weeks: int, x: int)
    requires
        0 <= x < 7,
        number == 7 * weeks + x,
    ensures
        number % 7 == x,
{
}

/// The columns of the grid are the weekdays, Monday to Sunday: each cell
/// shows a day that falls on the weekday of its column.
pub proof fn lemma_columns_are_weekdays(x: int, y: int, year: int, month: int)
    requires
        0 <= x < 7,
        0 <= y < 6,
        1 <= month <= 12,
    ensures
        grid_date(x, y, year, month).weekday() == x,
{
    let displayed = Ymd { year, month, day: 1 };
    let shown = grid_date(x, y, year, month);
    let before = displayed.day_number() - 1;
    lemma_cells_follow_one_another(x, y, year, month);
    let weeks = before / 7;
    let weekday = before % 7;
    assert(displayed.weekday() == weekday);
    assert(before == 7 * weeks + weekday);
    if weekday == 0 {
        lemma_days_into_week(shown.day_number() - 1, weeks + y - 1, x);
    } else {
        lemma_days_into_week(shown.day_number() - 1, weeks + y, x);
    }
}

/// The days of the displayed month among the first `cells` cells are the
/// days from 1 on, as many as there are cells from the one that shows day 1,
/// and no more than the month has.
proof fn lemma_same_month_days_so_far(year: int, month: int, cells: nat)
    ensures
        same_month_days(year, month, cells) == Seq::new(
            days_shown(cells as int, first_day_offset(year, month), days_in_month(year, month)),
            |i: int| i + 1,
        ),
    decreases cells,
{
    let offset = first_day_offset(year, month);
    let last = days_in_month(year, month);
    if cells > 0 {
        lemma_same_month_days_so_far(year, month, (cells - 1) as nat);
        let before = Seq::new(days_shown(cells - 1, offset, last), |i: int| i + 1);
        let now = Seq::new(days_shown(cells as int, offset, last), |i: int| i + 1);
        let (day, part) = grid_day((cells - 1) % 7, (cells - 1) / 7, year, month);
        assert((cells - 1) % 7 + 7 * ((cells - 1) / 7) == cells - 1);
        if part is Same {
            assert(before.push(day) =~= now);
        } else {
            assert(before =~= now);
        }
    } else {
        assert(same_month_days(year, month, cells) =~= Seq::new(
            days_shown(cells as int, offset, last),
            |i: int| i + 1,
        ));
    }
}

/// How many days of the displayed month the first `cells` cells show.
spec fn days_shown(cells: int, offset: int, last: int) -> nat {
    if cells <= offset {
        0
    } else if cells - offset >= last {
        last as nat
    } else {
        (cells - offset) as nat
    }
}

/// Going through the grid cell by cell and keeping the days of the
/// displayed month gives each day of the month once, in order: 1, 2, and so
/// on to the last.
pub proof fn lemma_grid_shows_month(year: int, month: int)
    ensures
        same_month_days(year, month, grid_cells()) == Seq::new(
            days_in_month(year, month) as nat,
            |i: int| i + 1,
        ),
{
    lemma_same_month_days_so_far(year, month, grid_cells());
}

} // verus!
