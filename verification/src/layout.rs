//! The twelve month blocks of a year, laid out in four rows of three.

use crate::date::days_by_year;
use crate::date::get_days_accumulated_by_month;
use crate::date::lemma_cumulative_days_values;
use crate::date::lemma_day_numbers_fit;
use crate::date::lemma_days_by_date_is_day_number;
use crate::date::spec_accumulated_days;
use crate::date::spec_cumulative_days;
use crate::date::spec_day_number;
use crate::date::spec_days_before_year;
use crate::date::spec_days_by_month;
use crate::date::spec_days_in_month;
use crate::date::MAX_YEAR;
use crate::date::MONTHS;
use crate::grid::lemma_week_column_advances;
use crate::grid::month_printable;
use crate::grid::spec_display_width;
use crate::grid::spec_month_lines;
use crate::grid::spec_rows_used;
use crate::grid::spec_week_column;
use crate::locale::spec_month_names;
use crate::locale::spec_week_day_names;
use crate::locale::LocaleInfo;
use crate::text::lemma_decimal_shape;
use crate::text::spec_blanks;
use crate::text::spec_lines;
use crate::weeks::add_week_numbers;
use crate::weeks::lemma_body_row_shape;
use crate::weeks::lemma_month_weeks_closed;
use crate::weeks::spec_gutter;
use crate::weeks::spec_numbered;
use crate::weeks::spec_weeks_closed;
use vstd::prelude::*;

verus! {

/// Month blocks side by side.
pub const COLUMN: usize = 3;

/// Rows of month blocks.
pub const ROWS: usize = 4;

/// Why a calendar cannot be made.
#[derive(Clone, Copy, Debug, PartialEq, Eq)]
pub enum ConfigError {
    /// The year is 0 or lies after `MAX_YEAR`.
    YearOutOfRange,
    /// The first day of the week is none of 0 (Sunday) to 6 (Saturday).
    StartingDayOutOfRange,
    /// The day to mark is no day of the year.
    DateOutOfRange,
}

impl ConfigError {
    /// What went wrong, in words.
    pub open spec fn spec_message(self) -> Seq<char> {
        match self {
            ConfigError::YearOutOfRange => "the year must lie between 1 and 11759221"@,
            ConfigError::StartingDayOutOfRange =>
                "the starting day must lie between 0 (Sunday) and 6 (Saturday)"@,
            ConfigError::DateOutOfRange => "the day to mark is no day of the year"@,
        }
    }

    /// What went wrong, in words.
    pub fn message(&self) -> (text: String)
        ensures
            text@ == self.spec_message(),
    {
        match self {
            ConfigError::YearOutOfRange => String::from_str(
                "the year must lie between 1 and 11759221",
            ),
            ConfigError::StartingDayOutOfRange => String::from_str(
                "the starting day must lie between 0 (Sunday) and 6 (Saturday)",
            ),
            ConfigError::DateOutOfRange => String::from_str(
                "the day to mark is no day of the year",
            ),
        }
    }
}

/// What is wrong with a year and a first day of the week, if anything; the year is
/// looked at first.
pub open spec fn spec_check_config(year: int, starting_day: int) -> Option<ConfigError> {
    if year < 1 || year > MAX_YEAR {
        Some(ConfigError::YearOutOfRange)
    } else if starting_day < 0 || starting_day > 6 {
        Some(ConfigError::StartingDayOutOfRange)
    } else {
        None
    }
}

/// The column in which the first day of `month` stands.
pub open spec fn spec_month_offset(year: int, month: int, starting_day: int) -> int {
    spec_week_column(spec_day_number(year, month, 1), starting_day)
}

/// The number of the week in which `month` begins: weeks are counted from 1 with
/// the first line of January, and a new one begins after every line whose last
/// column is taken.
pub open spec fn spec_week_counter(year: int, month: int, starting_day: int) -> int {
    1 + (spec_month_offset(year, 1, starting_day) + spec_cumulative_days(year, month - 1)) / 7
}

/// The block of `month` without a gutter.
pub open spec fn spec_plain_block(
    year: int,
    month: int,
    starting_day: int,
    week_numbers: bool,
    month_names: Seq<Seq<char>>,
    week_names: Seq<Seq<char>>,
) -> Seq<Seq<char>> {
    spec_month_lines(
        month_names[month - 1],
        spec_display_width(month_names[month - 1]) as int,
        week_names,
        starting_day,
        spec_month_offset(year, month, starting_day),
        spec_days_in_month(year, month),
        week_numbers,
    )
}

/// Line `line` of the block of `month`. With week numbers, three blanks stand in
/// front of title and header and the week number in front of every row that
/// shows a day.
pub open spec fn spec_block_line(
    year: int,
    month: int,
    starting_day: int,
    week_numbers: bool,
    month_names: Seq<Seq<char>>,
    week_names: Seq<Seq<char>>,
    line: int,
) -> Seq<char> {
    let plain = spec_plain_block(
        year,
        month,
        starting_day,
        week_numbers,
        month_names,
        week_names,
    )[line];
    if !week_numbers {
        plain
    } else if line < 2 {
        spec_blanks(3) + plain
    } else if line - 2 < spec_rows_used(
        spec_month_offset(year, month, starting_day),
        spec_days_in_month(year, month),
    ) {
        spec_gutter(spec_week_counter(year, month, starting_day) + line - 2) + plain
    } else {
        plain
    }
}

/// The nine lines of the block of `month`.
pub open spec fn spec_month_block(
    year: int,
    month: int,
    starting_day: int,
    week_numbers: bool,
    month_names: Seq<Seq<char>>,
    week_names: Seq<Seq<char>>,
) -> Seq<Seq<char>> {
    Seq::new(
        9,
        |line: int|
            spec_block_line(
                year,
                month,
                starting_day,
                week_numbers,
                month_names,
                week_names,
                line,
            ),
    )
}

/// The lines of the block in row `row` and column `column` of a grid.
pub open spec fn spec_grid_block(grid: Seq<Vec<Vec<String>>>, row: int, column: int) -> Seq<
    Seq<char>,
> {
    spec_lines(grid[row]@[column]@)
}

/// Whether `grid` holds the twelve blocks of `year`, month `m` in row
/// `(m - 1) / 3` and column `(m - 1) % 3`.
pub open spec fn spec_is_calendar(
    grid: Seq<Vec<Vec<String>>>,
    year: int,
    starting_day: int,
    week_numbers: bool,
    month_names: Seq<Seq<char>>,
    week_names: Seq<Seq<char>>,
) -> bool {
    &&& grid.len() == 4
    &&& forall|row: int| 0 <= row < 4 ==> (#[trigger] grid[row]).len() == 3
    &&& forall|row: int, column: int|
        0 <= row < 4 && 0 <= column < 3 ==> #[trigger] spec_grid_block(grid, row, column)
            == spec_month_block(
            year,
            3 * row + column + 1,
            starting_day,
            week_numbers,
            month_names,
            week_names,
        )
}

/// The first day of a month stands as many columns after the first day of the
/// year as days lie between them, going round.
pub proof fn lemma_month_offset(year: int, month: int, starting_day: int)
    requires
        1 <= month <= 12,
    ensures
        0 <= spec_month_offset(year, month, starting_day) < 7,
        spec_month_offset(year, month, starting_day) == (spec_month_offset(year, 1, starting_day)
            + spec_cumulative_days(year, month - 1)) % 7,
        28 <= spec_days_in_month(year, month) <= 31,
        0 <= spec_cumulative_days(year, month - 1) <= 335,
        1 <= spec_week_counter(year, month, starting_day) <= 49,
        spec_week_counter(year, month + 1, starting_day) == spec_week_counter(
            year,
            month,
            starting_day,
        ) + (spec_month_offset(year, month, starting_day) + spec_days_in_month(year, month)) / 7,
{
    lemma_cumulative_days_values(year);
    lemma_week_column_advances(
        spec_day_number(year, 1, 1),
        starting_day,
        spec_cumulative_days(year, month - 1),
    );
}

/// Numbering the lines of a plain block as they come gives the block with its
/// gutter, and closes as many weeks as the month fills.
pub proof fn lemma_numbered_block(
    year: int,
    month: int,
    starting_day: int,
    month_names: Seq<Seq<char>>,
    week_names: Seq<Seq<char>>,
)
    requires
        1 <= month <= 12,
    ensures
        spec_numbered(
            spec_plain_block(year, month, starting_day, true, month_names, week_names),
            spec_week_counter(year, month, starting_day),
        ) == spec_month_block(year, month, starting_day, true, month_names, week_names),
        spec_weeks_closed(
            spec_plain_block(year, month, starting_day, true, month_names, week_names),
            9,
        ) == (spec_month_offset(year, month, starting_day) + spec_days_in_month(year, month)) / 7,
{
    lemma_month_offset(year, month, starting_day);
    let offset = spec_month_offset(year, month, starting_day);
    let days = spec_days_in_month(year, month);
    let counter = spec_week_counter(year, month, starting_day);
    let plain = spec_plain_block(year, month, starting_day, true, month_names, week_names);
    let name = month_names[month - 1];
    let width = spec_display_width(name) as int;
    lemma_month_weeks_closed(name, width, week_names, starting_day, offset, days, true, 7);
    assert(plain.len() == 9);
    assert forall|line: int| 0 <= line < 9 implies #[trigger] spec_numbered(plain, counter)[line]
        == spec_block_line(year, month, starting_day, true, month_names, week_names, line) by {
        if line >= 2 {
            let row = line - 2;
            lemma_body_row_shape(offset, days, row);
            lemma_month_weeks_closed(
                name,
                width,
                week_names,
                starting_day,
                offset,
                days,
                true,
                row,
            );
            if row >= spec_rows_used(offset, days) {
                assert(plain[line] =~= spec_blanks(24));
            }
        }
    }
    assert(spec_numbered(plain, counter) =~= spec_month_block(
        year,
        month,
        starting_day,
        true,
        month_names,
        week_names,
    ));
}

/// Every month block has nine lines, and its seven body lines are all 21
/// characters long, or 24 with the gutter of week numbers, whatever the year and
/// the first day of the week.
pub proof fn lemma_block_shape(
    year: int,
    month: int,
    starting_day: int,
    week_numbers: bool,
    month_names: Seq<Seq<char>>,
    week_names: Seq<Seq<char>>,
)
    requires
        1 <= month <= 12,
    ensures
        spec_month_block(year, month, starting_day, week_numbers, month_names, week_names).len()
            == 9,
        forall|line: int|
            2 <= line < 9 ==> (#[trigger] spec_month_block(
                year,
                month,
                starting_day,
                week_numbers,
                month_names,
                week_names,
            )[line]).len() == 21 + if week_numbers {
                3int
            } else {
                0int
            },
{
    lemma_month_offset(year, month, starting_day);
    let offset = spec_month_offset(year, month, starting_day);
    let days = spec_days_in_month(year, month);
    let counter = spec_week_counter(year, month, starting_day);
    assert forall|line: int| 2 <= line < 9 implies (#[trigger] spec_month_block(
        year,
        month,
        starting_day,
        week_numbers,
        month_names,
        week_names,
    )[line]).len() == 21 + if week_numbers {
        3int
    } else {
        0int
    } by {
        lemma_body_row_shape(offset, days, line - 2);
        lemma_decimal_shape(counter + line - 2);
    }
}

/// What is wrong with a year and a first day of the week, if anything.
pub fn check_config(year: u32, starting_day: u32) -> (problem: Option<ConfigError>)
    ensures
        problem == spec_check_config(year as int, starting_day as int),
{
    if year < 1 || year > MAX_YEAR {
        Some(ConfigError::YearOutOfRange)
    } else if starting_day > 6 {
        Some(ConfigError::StartingDayOutOfRange)
    } else {
        None
    }
}

/// The calendar of `year`: four rows of three month blocks, each of nine lines,
/// with the names of `locale`, weeks that start on `starting_day` (0 is Sunday)
/// and, if asked for, a gutter of week numbers.
///
/// A year outside `1..=MAX_YEAR` or a first day of the week above 6 is refused.
pub fn calendar(year: u32, locale: &LocaleInfo, starting_day: u32, week_numbers: bool) -> (result:
    Result<Vec<Vec<Vec<String>>>, ConfigError>)
    ensures
        match result {
            Ok(rows) => spec_check_config(year as int, starting_day as int) is None
                && spec_is_calendar(
                rows@,
                year as int,
                starting_day as int,
                week_numbers,
                spec_month_names(locale.spec_months()),
                spec_week_day_names(locale.spec_abbreviated_days()),
            ),
            Err(error) => spec_check_config(year as int, starting_day as int) == Some(error),
        },
{
    if let Some(error) = check_config(year, starting_day) {
        return Err(error);
    }
    let (months_memoized, months) = get_days_accumulated_by_month(year);
    let year_memoized = days_by_year(year);
    let month_names = locale.month_names();
    let week_names = locale.week_day_names();
    let ghost names = spec_month_names(locale.spec_months());
    let ghost days_names = spec_week_day_names(locale.spec_abbreviated_days());
    let mut week_counter: u32 = 1;
    let mut rows: Vec<Vec<Vec<String>>> = Vec::new();
    let mut row: Vec<Vec<String>> = Vec::new();
    let mut month: usize = 1;
    proof {
        lemma_cumulative_days_values(year as int);
        lemma_month_offset(year as int, 1, starting_day as int);
    }
    while month <= MONTHS
        invariant
            1 <= month <= 13,
            1 <= year <= MAX_YEAR,
            months_memoized@ == spec_accumulated_days(year as int),
            months@ == spec_days_by_month(year as int),
            year_memoized == spec_days_before_year(year as int),
            month_names.len() == 12,
            week_names.len() == 7,
            spec_lines(month_names@) == names,
            spec_lines(week_names@) == days_names,
            week_numbers && month <= 12 ==> week_counter == spec_week_counter(
                year as int,
                month as int,
                starting_day as int,
            ),
            rows.len() == (month - 1) / 3,
            row.len() == (month - 1) % 3,
            forall|r: int| 0 <= r < rows.len() ==> (#[trigger] rows[r]).len() == 3,
            forall|r: int, c: int|
                0 <= r < rows.len() && 0 <= c < 3 ==> #[trigger] spec_grid_block(rows@, r, c)
                    == spec_month_block(
                    year as int,
                    3 * r + c + 1,
                    starting_day as int,
                    week_numbers,
                    names,
                    days_names,
                ),
            forall|c: int|
                0 <= c < row.len() ==> spec_lines((#[trigger] row[c])@) == spec_month_block(
                    year as int,
                    3 * rows.len() + c + 1,
                    starting_day as int,
                    week_numbers,
                    names,
                    days_names,
                ),
        decreases 13 - month,
    {
        proof {
            lemma_month_offset(year as int, month as int, starting_day as int);
            lemma_days_by_date_is_day_number(year as int, month as int, 1);
            lemma_days_by_date_is_day_number(
                year as int,
                month as int,
                spec_days_in_month(year as int, month as int),
            );
            lemma_day_numbers_fit(year as int);
            lemma_cumulative_days_values(year as int);
            assert(month_names[month - 1]@ == names[month - 1]);
        }
        let printable = month_printable(
            year,
            month,
            months[month],
            &months_memoized,
            year_memoized,
            starting_day,
            &month_names,
            &week_names,
            week_numbers,
        );
        assert(spec_lines(printable@) == spec_plain_block(
            year as int,
            month as int,
            starting_day as int,
            week_numbers,
            names,
            days_names,
        ));
        let block = if week_numbers {
            proof {
                lemma_numbered_block(
                    year as int,
                    month as int,
                    starting_day as int,
                    names,
                    days_names,
                );
            }
            let (numbered, next) = add_week_numbers(printable, week_counter);
            week_counter = next;
            numbered
        } else {
            assert(spec_lines(printable@) =~= spec_month_block(
                year as int,
                month as int,
                starting_day as int,
                false,
                names,
                days_names,
            ));
            printable
        };
        let ghost before = rows@;
        row.push(block);
        if row.len() == COLUMN {
            rows.push(row);
            row = Vec::new();
            proof {
                let last = rows.len() - 1;
                assert forall|r: int, c: int| 0 <= r < rows.len() && 0 <= c < 3 implies
                    #[trigger] spec_grid_block(rows@, r, c) == spec_month_block(
                    year as int,
                    3 * r + c + 1,
                    starting_day as int,
                    week_numbers,
                    names,
                    days_names,
                ) by {
                    if r < last {
                        assert(spec_grid_block(rows@, r, c) == spec_grid_block(before, r, c));
                    }
                }
            }
        }
        month += 1;
    }
    Ok(rows)
}

} // verus!
