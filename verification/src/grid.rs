//! The text block of one month: a title, the weekday header and seven body lines.

use crate::date::days_by_date;
use crate::date::spec_days_by_date;
use crate::date::WEEKDAYS;
use crate::text::lemma_blanks_concat;
use crate::text::lemma_right_justified_three;
use crate::text::push_blanks;
use crate::text::push_right_justified;
use crate::text::spec_blanks;
use crate::text::spec_lines;
use crate::text::spec_right_justified;
use unicode_width::UnicodeWidthStr;
use vstd::prelude::*;

verus! {

/// The number of terminal columns that a text takes when it is displayed, as the
/// crate `unicode-width` counts them.
pub uninterp spec fn spec_display_width(text: Seq<char>) -> usize;

/// `UnicodeWidthStr::width` of `unicode-width`: the displayed width of `text` in
/// columns, found from its characters alone by the tables of that crate.
#[verifier::external_body]
fn display_width(text: &str) -> (width: usize)
    ensures
        width == spec_display_width(text@),
{
    UnicodeWidthStr::width(text)
}

/// Cells in a body line, one for each day of the week.
pub const ROW_SIZE: usize = 7;

/// Characters of one cell.
pub const CELL_WIDTH: usize = 3;

/// Characters of a body line without the gutter.
pub const LINE_WIDTH: usize = 21;

/// Body lines of every month block.
pub const BODY_LINES: usize = 7;

/// The column (0 to 6) in which the day with the number `day_number` stands when
/// the week starts on weekday `starting_day` (0 is Sunday; day 1 is a Sunday).
pub open spec fn spec_week_column(day_number: int, starting_day: int) -> int {
    (day_number - starting_day - 1) % 7
}

/// The text of the cell in row `row` and column `column` of a month whose first day
/// stands in column `offset` and which has `days` days: the day, right-justified,
/// or blanks where no day of the month falls.
pub open spec fn spec_body_cell(offset: int, days: int, row: int, column: int) -> Seq<char> {
    let day = row * 7 + column - offset + 1;
    if 1 <= day <= days {
        spec_right_justified(day, 3)
    } else {
        spec_blanks(3)
    }
}

/// The first `count` cells of row `row`, one after the other.
pub open spec fn spec_body_cells(offset: int, days: int, row: int, count: int) -> Seq<char>
    decreases count,
{
    if count <= 0 {
        Seq::empty()
    } else {
        spec_body_cells(offset, days, row, count - 1) + spec_body_cell(
            offset,
            days,
            row,
            count - 1,
        )
    }
}

/// The seven cells of row `row`.
pub open spec fn spec_body_row(offset: int, days: int, row: int) -> Seq<char> {
    spec_body_cells(offset, days, row, 7)
}

/// The number of rows in which a day of the month stands.
pub open spec fn spec_rows_used(offset: int, days: int) -> int {
    (offset + days + 6) / 7
}

/// Body line `row` of a month: its row of cells as long as days are left, then
/// blank lines, which are three characters longer where week numbers are shown.
pub open spec fn spec_body_line(offset: int, days: int, week_numbers: bool, row: int) -> Seq<
    char,
> {
    if row < spec_rows_used(offset, days) {
        spec_body_row(offset, days, row)
    } else {
        spec_blanks(
            21 + if week_numbers {
                3int
            } else {
                0int
            },
        )
    }
}

/// The seven body lines of a month.
pub open spec fn spec_body(offset: int, days: int, week_numbers: bool) -> Seq<Seq<char>> {
    Seq::new(7, |row: int| spec_body_line(offset, days, week_numbers, row))
}

/// The names of the seven weekdays, beginning with number `start` and going round,
/// each with a blank in front; only the first `count` of them.
pub open spec fn spec_rotated_names(names: Seq<Seq<char>>, start: int, count: int) -> Seq<char>
    decreases count,
{
    if count <= 0 {
        Seq::empty()
    } else {
        spec_rotated_names(names, start, count - 1) + seq![' '] + names[(start + count - 1) % 7]
    }
}

/// The header line of a month: the seven weekday names from `start` on.
pub open spec fn spec_week_header(names: Seq<Seq<char>>, start: int) -> Seq<char> {
    spec_rotated_names(names, start, 7)
}

/// With weekday names of two characters each, the first `count` names of the
/// header take three characters each.
pub proof fn lemma_rotated_names_len(names: Seq<Seq<char>>, start: int, count: int)
    requires
        names.len() >= 7,
        forall|i: int| 0 <= i < 7 ==> (#[trigger] names[i]).len() == 2,
        0 <= count,
    ensures
        spec_rotated_names(names, start, count).len() == 3 * count,
    decreases count,
{
    if count > 0 {
        lemma_rotated_names_len(names, start, count - 1);
        assert(names[(start + count - 1) % 7].len() == 2);
    }
}

/// With weekday names of two characters the header line is 21 characters long.
pub proof fn lemma_week_header_len(names: Seq<Seq<char>>, start: int)
    requires
        names.len() >= 7,
        forall|i: int| 0 <= i < 7 ==> (#[trigger] names[i]).len() == 2,
    ensures
        spec_week_header(names, start).len() == 21,
{
    lemma_rotated_names_len(names, start, 7);
}

/// A day and the day `k` days later stand `k` columns apart, going round.
pub proof fn lemma_week_column_advances(day_number: int, starting_day: int, k: int)
    ensures
        0 <= spec_week_column(day_number, starting_day) < 7,
        spec_week_column(day_number + k, starting_day) == (spec_week_column(
            day_number,
            starting_day,
        ) + k) % 7,
{
}

/// Starting the week `k` weekdays later moves every day `k` columns to the left,
/// going round.
pub proof fn lemma_week_start_shift(day_number: int, starting_day: int, k: int)
    ensures
        spec_week_column(day_number, starting_day + k) == (spec_week_column(
            day_number,
            starting_day,
        ) - k) % 7,
        spec_week_column(day_number, (starting_day + k) % 7) == (spec_week_column(
            day_number,
            starting_day,
        ) - k) % 7,
{
}

/// The first `count` cells take three characters each.
pub proof fn lemma_body_cells_len(offset: int, days: int, row: int, count: int)
    requires
        0 <= count,
        days < 1000,
    ensures
        spec_body_cells(offset, days, row, count).len() == 3 * count,
    decreases count,
{
    if count > 0 {
        lemma_body_cells_len(offset, days, row, count - 1);
        let day = row * 7 + count - 1 - offset + 1;
        if 1 <= day <= days {
            lemma_right_justified_three(day);
        }
    }
}

/// The cells in front of the first day of the month are blank.
pub proof fn lemma_body_cells_lead_in(offset: int, days: int, count: int)
    requires
        0 <= count <= offset,
    ensures
        spec_body_cells(offset, days, 0, count) == spec_blanks(3 * count),
    decreases count,
{
    if count > 0 {
        lemma_body_cells_lead_in(offset, days, count - 1);
        lemma_blanks_concat(3 * (count - 1), 3);
    } else {
        assert(spec_body_cells(offset, days, 0, 0) =~= spec_blanks(0));
    }
}

/// The cells behind the last day of the month are blank.
pub proof fn lemma_body_cells_tail(offset: int, days: int, row: int, from: int, count: int)
    requires
        0 <= from <= count,
        row * 7 + from - offset + 1 > days,
    ensures
        spec_body_cells(offset, days, row, count) == spec_body_cells(offset, days, row, from)
            + spec_blanks(3 * (count - from)),
    decreases count,
{
    if count > from {
        lemma_body_cells_tail(offset, days, row, from, count - 1);
        lemma_blanks_concat(3 * (count - 1 - from), 3);
        assert(spec_body_cells(offset, days, row, count) =~= spec_body_cells(
            offset,
            days,
            row,
            from,
        ) + spec_blanks(3 * (count - from)));
    } else {
        assert(spec_body_cells(offset, days, row, count) =~= spec_body_cells(
            offset,
            days,
            row,
            from,
        ) + spec_blanks(0));
    }
}

/// The column in which the day with the number `day_year` stands.
pub fn week_column(day_year: u32, starting_day: u32) -> (column: u32)
    ensures
        column == spec_week_column(day_year as int, starting_day as int),
        column < 7,
{
    (day_year % WEEKDAYS + 13 - starting_day % WEEKDAYS) % WEEKDAYS
}

/// The blanks in front of the first day of a month: one cell for each column
/// that the day with the number `day_year` leaves free.
pub fn first_day_printable(day_year: u32, starting_day: u32) -> (printable: String)
    ensures
        printable@ == spec_blanks(3 * spec_week_column(day_year as int, starting_day as int)),
{
    let mut printable = String::new();
    let column = week_column(day_year, starting_day);
    push_blanks(&mut printable, CELL_WIDTH * (column as usize));
    assert(printable@ =~= spec_blanks(3 * column));
    printable
}

/// The cell of the day `day`, which has the number `day_year`; a line feed follows
/// where the day is the last of its week.
pub fn remain_day_printable(day: u32, day_year: u32, starting_day: u32) -> (printable: String)
    ensures
        printable@ == spec_right_justified(day as int, 3) + if spec_week_column(
            day_year as int,
            starting_day as int,
        ) == 6 {
            seq!['\n']
        } else {
            Seq::<char>::empty()
        },
{
    let mut printable = String::new();
    push_right_justified(&mut printable, day, CELL_WIDTH);
    if week_column(day_year, starting_day) == 6 {
        printable.push('\n');
        assert(printable@ =~= spec_right_justified(day as int, 3) + seq!['\n']);
    } else {
        assert(printable@ =~= spec_right_justified(day as int, 3) + Seq::<char>::empty());
    }
    printable
}

/// The header line: the weekday names, the one with number `idx` first, then the
/// others going round, each with a blank in front.
pub fn circular_week_name(week_name: &Vec<String>, idx: usize) -> (header: String)
    requires
        week_name.len() >= 7,
    ensures
        header@ == spec_week_header(spec_lines(week_name@), idx as int),
{
    let mut header = String::new();
    let start: usize = idx % ROW_SIZE;
    let mut count: usize = 0;
    while count < ROW_SIZE
        invariant
            count <= 7,
            start == idx % 7,
            week_name.len() >= 7,
            header@ == spec_rotated_names(spec_lines(week_name@), idx as int, count as int),
        decreases 7 - count,
    {
        header.push(' ');
        header.append(week_name[(start + count) % ROW_SIZE].as_str());
        count += 1;
    }
    header
}

/// A blank line of a month block.
pub fn blank_line(week_numbers: bool) -> (line: String)
    ensures
        line@ == spec_blanks(
            21 + if week_numbers {
                3int
            } else {
                0int
            },
        ),
{
    let mut line = String::new();
    let gutter: usize = if week_numbers {
        CELL_WIDTH
    } else {
        0
    };
    push_blanks(&mut line, LINE_WIDTH + gutter);
    line
}

/// The seven body lines of a month of `days` days: the days walked one by one,
/// each week on a line of its own, lines filled up with blanks to 21 characters,
/// and blank lines below (24 characters long where week numbers are shown).
///
/// `months_memoized` and `year_memoized` are the tables from which `days_by_date`
/// numbers the days.
pub fn body_printable(
    year: u32,
    month: usize,
    days: u32,
    months_memoized: &Vec<u32>,
    year_memoized: u32,
    starting_day: u32,
    week_numbers: bool,
) -> (body: Vec<String>)
    requires
        1 <= days <= 31,
        month > 1 ==> month <= months_memoized.len(),
        spec_days_by_date(
            days as int,
            month as int,
            year as int,
            months_memoized@,
            year_memoized as int,
        ) <= u32::MAX,
    ensures
        spec_lines(body@) == spec_body(
            spec_week_column(
                spec_days_by_date(
                    1,
                    month as int,
                    year as int,
                    months_memoized@,
                    year_memoized as int,
                ),
                starting_day as int,
            ),
            days as int,
            week_numbers,
        ),
{
    let mut result: Vec<String> = Vec::new();
    let first_day = days_by_date(1, month, year, months_memoized, year_memoized);
    let ghost offset = spec_week_column(first_day as int, starting_day as int);
    let mut line = first_day_printable(first_day, starting_day);
    proof {
        lemma_week_column_advances(first_day as int, starting_day as int, 0);
        lemma_body_cells_lead_in(offset, days as int, offset);
    }
    let mut day: u32 = 1;
    while day <= days
        invariant
            1 <= day <= days + 1,
            days <= 31,
            0 <= offset < 7,
            offset == spec_week_column(first_day as int, starting_day as int),
            first_day == spec_days_by_date(
                1,
                month as int,
                year as int,
                months_memoized@,
                year_memoized as int,
            ),
            month > 1 ==> month <= months_memoized.len(),
            first_day + days - 1 <= u32::MAX,
            result.len() == (offset + day - 1) / 7,
            forall|i: int|
                0 <= i < result.len() ==> (#[trigger] result[i])@ == spec_body_row(
                    offset,
                    days as int,
                    i,
                ),
            line@ == spec_body_cells(
                offset,
                days as int,
                (offset + day - 1) / 7,
                (offset + day - 1) % 7,
            ),
        decreases days + 1 - day,
    {
        let day_year = days_by_date(day, month, year, months_memoized, year_memoized);
        let ghost row = (offset + day - 1) / 7;
        let ghost column = (offset + day - 1) % 7;
        proof {
            lemma_week_column_advances(first_day as int, starting_day as int, day - 1);
            assert(row * 7 + column - offset + 1 == day);
        }
        push_right_justified(&mut line, day, CELL_WIDTH);
        assert(line@ == spec_body_cells(offset, days as int, row, column + 1));
        if week_column(day_year, starting_day) == 6 {
            result.push(line);
            line = String::new();
            assert(line@ =~= spec_body_cells(offset, days as int, row + 1, 0));
        }
        day += 1;
    }
    let ghost row = (offset + days) / 7;
    let ghost column = (offset + days) % 7;
    proof {
        lemma_body_cells_len(offset, days as int, row, column);
    }
    let width = line.as_str().unicode_len();
    if width > 0 {
        proof {
            lemma_body_cells_tail(offset, days as int, row, column, 7);
        }
        push_blanks(&mut line, LINE_WIDTH - width);
        result.push(line);
    }
    assert(result.len() == spec_rows_used(offset, days as int));
    while result.len() < BODY_LINES
        invariant
            spec_rows_used(offset, days as int) <= result.len() <= 7,
            forall|i: int|
                0 <= i < result.len() ==> (#[trigger] result[i])@ == spec_body_line(
                    offset,
                    days as int,
                    week_numbers,
                    i,
                ),
        decreases 7 - result.len(),
    {
        result.push(blank_line(week_numbers));
    }
    assert(spec_lines(result@) =~= spec_body(offset, days as int, week_numbers));
    result
}

/// The title line of a month: a blank, then the name in the middle of a field of
/// 20 columns, the odd blank to the right; a name that is `name_width` >= 20
/// columns wide stands as it is.
pub open spec fn spec_title_line(name: Seq<char>, name_width: int) -> Seq<char> {
    if name_width >= 20 {
        seq![' '] + name
    } else {
        seq![' '] + spec_blanks((20 - name_width) / 2) + name + spec_blanks(
            20 - name_width - (20 - name_width) / 2,
        )
    }
}

/// The nine lines of a month block: title, header and body.
pub open spec fn spec_month_lines(
    name: Seq<char>,
    name_width: int,
    week_names: Seq<Seq<char>>,
    starting_day: int,
    offset: int,
    days: int,
    week_numbers: bool,
) -> Seq<Seq<char>> {
    seq![spec_title_line(name, name_width), spec_week_header(week_names, starting_day)]
        + spec_body(offset, days, week_numbers)
}

/// The title line for a month name that takes `name_width` columns on the screen.
pub fn title_line(month_name: &str, name_width: usize) -> (title: String)
    ensures
        title@ == spec_title_line(month_name@, name_width as int),
{
    let mut title = String::new();
    title.push(' ');
    if name_width >= 20 {
        title.append(month_name);
        assert(title@ =~= spec_title_line(month_name@, name_width as int));
    } else {
        let padding = 20 - name_width;
        let left = padding / 2;
        let right = padding - left;
        push_blanks(&mut title, left);
        title.append(month_name);
        push_blanks(&mut title, right);
        assert(title@ =~= spec_title_line(month_name@, name_width as int));
    }
    title
}

/// The block of one month: the title with the month's name, the weekday header
/// and the seven body lines.
pub fn month_printable(
    year: u32,
    month: usize,
    days: u32,
    months_memoized: &Vec<u32>,
    year_memoized: u32,
    starting_day: u32,
    month_names: &Vec<String>,
    week_names: &Vec<String>,
    week_numbers: bool,
) -> (block: Vec<String>)
    requires
        1 <= month <= month_names.len(),
        week_names.len() >= 7,
        1 <= days <= 31,
        month > 1 ==> month <= months_memoized.len(),
        spec_days_by_date(
            days as int,
            month as int,
            year as int,
            months_memoized@,
            year_memoized as int,
        ) <= u32::MAX,
    ensures
        spec_lines(block@) == spec_month_lines(
            month_names[month - 1]@,
            spec_display_width(month_names[month - 1]@) as int,
            spec_lines(week_names@),
            starting_day as int,
            spec_week_column(
                spec_days_by_date(
                    1,
                    month as int,
                    year as int,
                    months_memoized@,
                    year_memoized as int,
                ),
                starting_day as int,
            ),
            days as int,
            week_numbers,
        ),
{
    let mut result: Vec<String> = Vec::new();
    let mut body = body_printable(
        year,
        month,
        days,
        months_memoized,
        year_memoized,
        starting_day,
        week_numbers,
    );
    let ghost body_lines = spec_lines(body@);
    let month_name = month_names[month - 1].as_str();
    let name_width = display_width(month_name);
    result.push(title_line(month_name, name_width));
    let header = circular_week_name(week_names, starting_day as usize);
    result.push(header);
    let ghost head = spec_lines(result@);
    result.append(&mut body);
    assert(spec_lines(result@) =~= head + body_lines);
    assert(head =~= seq![
        spec_title_line(month_name@, name_width as int),
        spec_week_header(spec_lines(week_names@), starting_day as int),
    ]);
    result
}

} // verus!
