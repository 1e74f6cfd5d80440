//! Where a day stands in the grid of months.

use crate::date::days_by_date;
use crate::date::days_by_year;
use crate::date::get_days_accumulated_by_month;
use crate::date::lemma_cumulative_days_values;
use crate::date::lemma_day_numbers_fit;
use crate::date::lemma_days_by_date_is_day_number;
use crate::date::spec_days_in_month;
use crate::date::MAX_YEAR;
use crate::grid::spec_body_cell;
use crate::grid::spec_rows_used;
use crate::grid::week_column;
use crate::layout::lemma_month_offset;
use crate::layout::spec_month_offset;
use crate::text::spec_right_justified;
use vstd::prelude::*;

verus! {

/// The place of a day: the row and column of its month in the grid of months,
/// then the column of the day in its week and the body line of the month in
/// which it stands.
pub open spec fn spec_today_position(year: int, month: int, day: int, starting_day: int) -> (
    int,
    int,
    int,
    int,
) {
    let absolute_pos = spec_month_offset(year, month, starting_day) + day - 1;
    ((month - 1) / 3, (month - 1) % 3, absolute_pos % 7, absolute_pos / 7)
}

/// Whether `day` is a day of `month` in `year`.
pub open spec fn spec_is_date(year: int, month: int, day: int) -> bool {
    1 <= month <= 12 && 1 <= day <= spec_days_in_month(year, month)
}

/// The place of a day lies inside the grid, and the cell at that place of its
/// month's body shows the day.
pub proof fn lemma_position_shows_day(year: int, month: int, day: int, starting_day: int)
    requires
        spec_is_date(year, month, day),
    ensures
        ({
            let position = spec_today_position(year, month, day, starting_day);
            let offset = spec_month_offset(year, month, starting_day);
            let days = spec_days_in_month(year, month);
            &&& 0 <= position.0 < 4
            &&& 0 <= position.1 < 3
            &&& 0 <= position.2 < 7
            &&& 0 <= position.3 < spec_rows_used(offset, days) <= 6
            &&& spec_body_cell(offset, days, position.3, position.2) == spec_right_justified(
                day,
                3,
            )
        }),
{
    lemma_month_offset(year, month, starting_day);
}

/// Starting the week `k` weekdays later moves a day `k` columns to the left,
/// going round.
pub proof fn lemma_position_shifts_with_week_start(
    year: int,
    month: int,
    day: int,
    starting_day: int,
    k: int,
)
    ensures
        spec_today_position(year, month, day, starting_day + k).2 == (spec_today_position(
            year,
            month,
            day,
            starting_day,
        ).2 - k) % 7,
        spec_today_position(year, month, day, (starting_day + k) % 7).2 == (spec_today_position(
            year,
            month,
            day,
            starting_day,
        ).2 - k) % 7,
{
}

/// The place of the day `day` of `month` in `year`, in a calendar whose weeks
/// start on `starting_day`: month row, month column, column of the day and body
/// line of the month.
pub fn get_today_position(year: u32, month: u32, day: u32, starting_day: u32) -> (position: (
    u32,
    u32,
    u32,
    u32,
))
    requires
        year <= MAX_YEAR,
        1 <= month <= 12,
        1 <= day <= u32::MAX - 6,
    ensures
        (position.0 as int, position.1 as int, position.2 as int, position.3 as int)
            == spec_today_position(year as int, month as int, day as int, starting_day as int),
        position.0 < 4,
        position.1 < 3,
        position.2 < 7,
        day <= 31 ==> position.3 < 6,
{
    proof {
        lemma_days_by_date_is_day_number(year as int, month as int, 1);
        lemma_day_numbers_fit(year as int);
        lemma_cumulative_days_values(year as int);
        lemma_month_offset(year as int, month as int, starting_day as int);
    }
    let (months_memoized, _) = get_days_accumulated_by_month(year);
    let first_of_month = days_by_date(
        1,
        month as usize,
        year,
        &months_memoized,
        days_by_year(year),
    );
    let first_offset = week_column(first_of_month, starting_day);
    let row_index = (month - 1) / 3;
    let col_index = (month - 1) % 3;
    let absolute_pos = first_offset + day - 1;
    let x = absolute_pos % 7;
    let y = absolute_pos / 7;
    (row_index, col_index, x, y)
}

} // verus!
