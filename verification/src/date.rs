//! Day arithmetic: leap years, month lengths and the running number of a day.
//!
//! Every day has a number: 1 January of year 1 is day 1, and the numbers run on
//! without a gap. The number is only ever used modulo seven, to find a weekday.

use vstd::prelude::*;

verus! {

/// The last year in which every fourth year is a leap year without exception.
pub const REFORM_YEAR: u32 = 1099;

/// How many years up to `REFORM_YEAR` are leap years although the later rule
/// would have skipped them (the hundreds that are no multiple of 400).
pub const SPECIAL_LEAP_YEARS: u32 = (REFORM_YEAR / 100) - (REFORM_YEAR / 400);

/// Months in a year.
pub const MONTHS: usize = 12;

/// Days in a week.
pub const WEEKDAYS: u32 = 7;

/// The last year all of whose day numbers fit in 32 bits.
pub const MAX_YEAR: u32 = 11_759_221;

/// Whether `year` is a leap year: every fourth year up to `REFORM_YEAR`, and
/// after it every fourth year except the hundreds that are no multiple of 400.
pub open spec fn spec_is_leap_year(year: int) -> bool {
    if year <= REFORM_YEAR as int {
        year % 4 == 0
    } else {
        year % 4 == 0 && (year % 100 != 0 || year % 400 == 0)
    }
}

/// The number of days of `year`.
pub open spec fn spec_days_in_year(year: int) -> int {
    if spec_is_leap_year(year) {
        366
    } else {
        365
    }
}

/// How many of the years `1, .., year - 1` are leap years.
pub open spec fn spec_leap_years_before(year: int) -> int
    decreases year,
{
    if year <= 1 {
        0
    } else {
        spec_leap_years_before(year - 1) + if spec_is_leap_year(year - 1) {
            1int
        } else {
            0int
        }
    }
}

/// The days of the years `1, .., year - 1` together.
pub open spec fn spec_days_before_year(year: int) -> int
    decreases year,
{
    if year <= 1 {
        0
    } else {
        spec_days_before_year(year - 1) + spec_days_in_year(year - 1)
    }
}

/// The leap years before `year`, counted by division instead of one by one.
pub open spec fn spec_leap_years_formula(year: int) -> int {
    if year < 1 {
        0
    } else if year <= REFORM_YEAR as int {
        (year - 1) / 4
    } else {
        (year - 1) / 4 - (year - 1) / 100 + (year - 1) / 400 + SPECIAL_LEAP_YEARS as int
    }
}

/// The days before `year`, counted by division instead of year by year.
pub open spec fn spec_days_formula(year: int) -> int {
    if year < 1 {
        0
    } else {
        (year - 1) * 365 + spec_leap_years_formula(year)
    }
}

/// The number of days of `month` (1 to 12) in `year`; 0 for any other month.
pub open spec fn spec_days_in_month(year: int, month: int) -> int {
    if month < 1 || month > 12 {
        0
    } else if month == 2 {
        if spec_is_leap_year(year) {
            29
        } else {
            28
        }
    } else if month == 4 || month == 6 || month == 9 || month == 11 {
        30
    } else {
        31
    }
}

/// The days of the months `1, .., month` of `year` together.
pub open spec fn spec_cumulative_days(year: int, month: int) -> int
    decreases month,
{
    if month <= 0 {
        0
    } else {
        spec_cumulative_days(year, month - 1) + spec_days_in_month(year, month)
    }
}

/// The table of month lengths of `year`: entry 0 is 0, entry `m` the length of month `m`.
pub open spec fn spec_days_by_month(year: int) -> Seq<u32> {
    Seq::new(13, |month: int| spec_days_in_month(year, month) as u32)
}

/// The table of running totals of `year`: entry `m` is the length of the months up to `m`.
pub open spec fn spec_accumulated_days(year: int) -> Seq<u32> {
    Seq::new(13, |month: int| spec_cumulative_days(year, month) as u32)
}

/// The running totals of any table: entry `i` is the sum of the entries `0, .., i`.
pub open spec fn spec_running_total(table: Seq<u32>, i: int) -> int
    decreases i + 1,
{
    if i < 0 || i >= table.len() {
        0
    } else {
        spec_running_total(table, i - 1) + table[i] as int
    }
}

/// The number of a day as the tables give it: the day of the month, plus the
/// running total of the month before it (from the second month on), plus the days
/// before the year (from the second year on).
pub open spec fn spec_days_by_date(
    day: int,
    month: int,
    year: int,
    months_memoized: Seq<u32>,
    year_memoized: int,
) -> int {
    day + (if month > 1 {
        months_memoized[month - 1] as int
    } else {
        0
    }) + (if year > 1 {
        year_memoized
    } else {
        0
    })
}

/// The number of the day `day` of `month` in `year`, counted from 1 January of year 1.
pub open spec fn spec_day_number(year: int, month: int, day: int) -> int {
    spec_days_before_year(year) + spec_cumulative_days(year, month - 1) + day
}

/// A leap year adds one to the count of the year after it, and no other year does.
proof fn lemma_leap_years_formula_step(year: int)
    requires
        year >= 1,
    ensures
        spec_leap_years_formula(year + 1) == spec_leap_years_formula(year) + if spec_is_leap_year(
            year,
        ) {
            1int
        } else {
            0int
        },
{
}

/// Counting the leap years before a year one by one and by division gives the same number.
pub proof fn lemma_leap_years_formula(year: int)
    ensures
        spec_leap_years_before(year) == spec_leap_years_formula(year),
    decreases year,
{
    if year > 1 {
        lemma_leap_years_formula(year - 1);
        lemma_leap_years_formula_step(year - 1);
    }
}

/// Adding up the lengths of the years before a year and the closed formula agree,
/// for every year.
pub proof fn lemma_days_formula(year: int)
    ensures
        spec_days_before_year(year) == spec_days_formula(year),
        spec_days_before_year(year) == if year < 1 {
            0
        } else {
            (year - 1) * 365 + spec_leap_years_before(year)
        },
    decreases year,
{
    lemma_leap_years_formula(year);
    if year > 1 {
        lemma_days_formula(year - 1);
        lemma_leap_years_formula(year - 1);
    }
}

/// The days before a year grow with the year.
pub proof fn lemma_days_before_year_monotonic(earlier: int, later: int)
    requires
        earlier <= later,
    ensures
        spec_days_before_year(earlier) <= spec_days_before_year(later),
        0 <= spec_days_before_year(earlier),
    decreases later,
{
    if later > 1 && earlier < later {
        lemma_days_before_year_monotonic(earlier, later - 1);
    } else if later > 1 {
        lemma_days_before_year_monotonic(earlier - 1, later - 1);
    }
}

/// Up to `MAX_YEAR` every day number of a year fits in 32 bits, and
/// the days before the year after `MAX_YEAR` still do.
pub proof fn lemma_day_numbers_fit(year: int)
    requires
        year <= MAX_YEAR + 1,
    ensures
        0 <= spec_days_before_year(year) <= u32::MAX,
        year <= MAX_YEAR ==> spec_days_before_year(year) + 366 <= u32::MAX,
{
    if year <= MAX_YEAR {
        lemma_days_before_year_monotonic(year, MAX_YEAR as int);
    }
    lemma_days_before_year_monotonic(year, MAX_YEAR as int + 1);
    lemma_days_formula(MAX_YEAR as int);
    lemma_days_formula(MAX_YEAR as int + 1);
}

/// The running totals of a year, month by month.
pub proof fn lemma_cumulative_days_values(year: int)
    ensures
        spec_cumulative_days(year, 0) == 0,
        spec_cumulative_days(year, 1) == 31,
        spec_cumulative_days(year, 2) == 31 + spec_days_in_month(year, 2),
        spec_cumulative_days(year, 3) == 62 + spec_days_in_month(year, 2),
        spec_cumulative_days(year, 4) == 92 + spec_days_in_month(year, 2),
        spec_cumulative_days(year, 5) == 123 + spec_days_in_month(year, 2),
        spec_cumulative_days(year, 6) == 153 + spec_days_in_month(year, 2),
        spec_cumulative_days(year, 7) == 184 + spec_days_in_month(year, 2),
        spec_cumulative_days(year, 8) == 215 + spec_days_in_month(year, 2),
        spec_cumulative_days(year, 9) == 245 + spec_days_in_month(year, 2),
        spec_cumulative_days(year, 10) == 276 + spec_days_in_month(year, 2),
        spec_cumulative_days(year, 11) == 306 + spec_days_in_month(year, 2),
        spec_cumulative_days(year, 12) == 337 + spec_days_in_month(year, 2),
{
    reveal_with_fuel(spec_cumulative_days, 13);
}

/// The twelve months of a year have 366 days together in a leap year, and 365 in
/// any other; so do the entries 1 to 12 of the table of month lengths.
pub proof fn lemma_months_fill_year(year: int)
    ensures
        spec_cumulative_days(year, 12) == spec_days_in_year(year),
        spec_cumulative_days(year, 12) == 366 <==> spec_is_leap_year(year),
        spec_cumulative_days(year, 12) == 365 <==> !spec_is_leap_year(year),
        spec_running_total(spec_days_by_month(year), 12) == spec_days_in_year(year),
{
    lemma_cumulative_days_values(year);
    lemma_running_total_of_months(year, 12);
}

/// The running totals of a year grow strictly from month to month.
pub proof fn lemma_cumulative_days_increasing(year: int, earlier: int, later: int)
    requires
        0 <= earlier < later <= 12,
    ensures
        spec_cumulative_days(year, earlier) < spec_cumulative_days(year, later),
{
    lemma_cumulative_days_values(year);
}

/// The length of a year is the difference between the days before the next year and
/// the days before the year itself.
pub proof fn lemma_year_length_is_difference(year: int)
    requires
        year >= 1,
    ensures
        spec_cumulative_days(year, 12) == spec_days_before_year(year + 1) - spec_days_before_year(
            year,
        ),
{
    lemma_months_fill_year(year);
}

/// Whether `year` is a leap year.
pub fn is_leap_year(year: u32) -> (leap: bool)
    ensures
        leap == spec_is_leap_year(year as int),
{
    if year <= REFORM_YEAR {
        return year % 4 == 0;
    }
    (year % 4 == 0) ^ (year % 100 == 0) ^ (year % 400 == 0)
}

/// The number of leap years before `year`, by division.
pub fn count_leap_years(year: u32) -> (count: u32)
    ensures
        count == spec_leap_years_before(year as int),
{
    proof {
        lemma_leap_years_formula(year as int);
    }
    if year < 1 {
        0
    } else if year <= REFORM_YEAR {
        (year - 1) / 4
    } else {
        ((year - 1) / 4) - ((year - 1) / 100) + ((year - 1) / 400) + SPECIAL_LEAP_YEARS
    }
}

/// The days before `year`, by the closed formula.
pub fn days_by_year(year: u32) -> (days: u32)
    requires
        year <= MAX_YEAR + 1,
    ensures
        days == spec_days_before_year(year as int),
{
    proof {
        lemma_days_formula(year as int);
        lemma_day_numbers_fit(year as int);
    }
    if year < 1 {
        0
    } else {
        (year - 1) * 365 + count_leap_years(year)
    }
}

/// The days before `year`, by adding up the lengths of the years before it.
pub fn by_year(year: u32) -> (days: u32)
    requires
        year <= MAX_YEAR + 1,
    ensures
        days == spec_days_before_year(year as int),
{
    let mut count: u32 = 0;
    let mut next: u32 = 1;
    while next < year
        invariant
            1 <= next,
            next <= year || next == 1,
            year <= MAX_YEAR + 1,
            count == spec_days_before_year(next as int),
        decreases year - next,
    {
        proof {
            lemma_day_numbers_fit(next as int + 1);
        }
        if is_leap_year(next) {
            count += 366;
        } else {
            count += 365;
        }
        next += 1;
    }
    count
}

/// The lengths of the months of `year`, with a 0 in front so that month `m` is entry `m`.
pub fn days_by_month(year: u32) -> (days: Vec<u32>)
    ensures
        days@ == spec_days_by_month(year as int),
{
    let feb_day: u32 = if is_leap_year(year) {
        29
    } else {
        28
    };
    let days = vec![0, 31, feb_day, 31, 30, 31, 30, 31, 31, 30, 31, 30, 31];
    assert(days@ =~= spec_days_by_month(year as int));
    days
}

/// The running totals of `table`: entry `i` of the result is the sum of the entries
/// `0, .., i` of `table`.
pub fn running_totals(table: &Vec<u32>) -> (totals: Vec<u32>)
    requires
        spec_running_total(table@, table.len() - 1) <= u32::MAX,
    ensures
        totals.len() == table.len(),
        forall|i: int| 0 <= i < table.len() ==> totals[i] == spec_running_total(table@, i),
{
    let mut totals: Vec<u32> = Vec::new();
    let mut count: u32 = 0;
    let mut i: usize = 0;
    while i < table.len()
        invariant
            i <= table.len(),
            totals.len() == i,
            count == spec_running_total(table@, i - 1),
            spec_running_total(table@, table.len() - 1) <= u32::MAX,
            forall|j: int| 0 <= j < i ==> totals[j] == spec_running_total(table@, j),
        decreases table.len() - i,
    {
        proof {
            lemma_running_total_monotonic(table@, i as int, table.len() - 1);
        }
        count += table[i];
        totals.push(count);
        i += 1;
    }
    totals
}

/// The running totals of a table never shrink.
pub proof fn lemma_running_total_monotonic(table: Seq<u32>, i: int, j: int)
    requires
        i <= j < table.len(),
    ensures
        spec_running_total(table, i) <= spec_running_total(table, j),
        0 <= spec_running_total(table, i),
    decreases j + 1,
{
    if j >= 0 && i < j {
        lemma_running_total_monotonic(table, i, j - 1);
    } else if j >= 0 {
        lemma_running_total_monotonic(table, i - 1, j - 1);
    }
}

/// The running totals of the table of month lengths are the running totals of the year.
pub proof fn lemma_running_total_of_months(year: int, month: int)
    requires
        0 <= month <= 12,
    ensures
        spec_running_total(spec_days_by_month(year), month) == spec_cumulative_days(year, month),
    decreases month,
{
    if month > 0 {
        lemma_running_total_of_months(year, month - 1);
    } else {
        assert(spec_running_total(spec_days_by_month(year), -1) == 0);
    }
}

/// The running totals and the lengths of the months of `year`, in this order.
pub fn get_days_accumulated_by_month(year: u32) -> (tables: (Vec<u32>, Vec<u32>))
    ensures
        tables.0@ == spec_accumulated_days(year as int),
        tables.1@ == spec_days_by_month(year as int),
{
    let days: Vec<u32> = days_by_month(year);
    proof {
        lemma_running_total_of_months(year as int, 12);
        lemma_cumulative_days_values(year as int);
    }
    let accum = running_totals(&days);
    proof {
        assert forall|i: int| 0 <= i < 13 implies accum@[i] == spec_accumulated_days(year as int)[i] by {
            lemma_running_total_of_months(year as int, i);
            lemma_cumulative_days_values(year as int);
        }
        assert(accum@ =~= spec_accumulated_days(year as int));
    }
    (accum, days)
}

/// The number of a day from the tables of its year: `months_memoized` holds the
/// running totals of the months, `year_memoized` the days before the year.
pub fn days_by_date(
    day: u32,
    month: usize,
    year: u32,
    months_memoized: &Vec<u32>,
    year_memoized: u32,
) -> (number: u32)
    requires
        month > 1 ==> month <= months_memoized.len(),
        spec_days_by_date(
            day as int,
            month as int,
            year as int,
            months_memoized@,
            year_memoized as int,
        ) <= u32::MAX,
    ensures
        number == spec_days_by_date(
            day as int,
            month as int,
            year as int,
            months_memoized@,
            year_memoized as int,
        ),
{
    let before_month: u32 = if month > 1 {
        months_memoized[month - 1]
    } else {
        0
    };
    let before_year: u32 = if year > 1 {
        year_memoized
    } else {
        0
    };
    day + before_month + before_year
}

/// With the tables of its own year, `spec_days_by_date` is the number of the day.
pub proof fn lemma_days_by_date_is_day_number(year: int, month: int, day: int)
    requires
        1 <= month <= 12,
    ensures
        spec_days_by_date(
            day,
            month,
            year,
            spec_accumulated_days(year),
            spec_days_before_year(year),
        ) == spec_day_number(year, month, day),
        year <= MAX_YEAR && 0 <= day <= 31 ==> 0 <= spec_day_number(year, month, day) <= u32::MAX,
{
    lemma_cumulative_days_values(year);
    if year <= MAX_YEAR {
        lemma_day_numbers_fit(year);
    }
}

} // verus!
