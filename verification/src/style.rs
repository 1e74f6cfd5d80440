//! Which characters of a line are to be set off, and as what.

use crate::text::decimal_len;
use crate::text::push_blanks;
use crate::text::push_decimal;
use crate::text::spec_blanks;
use crate::text::spec_decimal;
use vstd::prelude::*;

verus! {

/// Columns of the field in whose middle the year stands.
pub const YEAR_FIELD: usize = 63;

/// What a character of the calendar stands for.
#[derive(Clone, Copy, Debug, PartialEq, Eq)]
pub enum Role {
    /// Nothing in particular.
    Plain,
    /// The year above the calendar.
    YearTitle,
    /// The name of a month.
    MonthTitle,
    /// The Saturday column.
    Saturday,
    /// The Sunday column.
    Sunday,
    /// The day to mark.
    Today,
    /// The gutter of week numbers.
    WeekNumber,
}

/// One character of the calendar and what it stands for.
#[derive(Clone, Copy, Debug, PartialEq, Eq)]
pub struct Cell {
    pub ch: char,
    pub role: Role,
}

/// The character `ch` standing for `role`.
pub open spec fn spec_cell(ch: char, role: Role) -> Cell {
    Cell { ch, role }
}

/// The column in which `weekday` (0 is Sunday) stands when the week starts on
/// `starting_day`.
pub open spec fn spec_weekday_column(weekday: int, starting_day: int) -> int {
    (weekday - starting_day) % 7
}

/// The index of the first of the two characters that show the day in column
/// `column` of a line; a gutter pushes them one cell to the right.
pub open spec fn spec_day_start(column: int, week_numbers: bool) -> int {
    1 + 3 * (column + if week_numbers {
        1int
    } else {
        0int
    })
}

/// Whether character `i` is one of the two that show the day in `column`.
pub open spec fn spec_in_day(i: int, column: int, week_numbers: bool) -> bool {
    i == spec_day_start(column, week_numbers) || i == spec_day_start(column, week_numbers) + 1
}

/// What character `i` of a header or body line stands for. The day to mark, in
/// column `today` if it stands in this line, comes before everything else; a
/// monochromatic calendar sets off nothing else; then come Saturday, Sunday and the
/// gutter.
pub open spec fn spec_char_role(
    i: int,
    starting_day: int,
    today: Option<int>,
    monochromatic: bool,
    week_numbers: bool,
) -> Role {
    if today is Some && spec_in_day(i, today->0, week_numbers) {
        Role::Today
    } else if monochromatic {
        Role::Plain
    } else if spec_in_day(i, spec_weekday_column(6, starting_day), week_numbers) {
        Role::Saturday
    } else if spec_in_day(i, spec_weekday_column(0, starting_day), week_numbers) {
        Role::Sunday
    } else if week_numbers && i < 3 {
        Role::WeekNumber
    } else {
        Role::Plain
    }
}

/// The characters of a header or body line with what they stand for.
pub open spec fn spec_row_cells(
    text: Seq<char>,
    starting_day: int,
    today: Option<int>,
    monochromatic: bool,
    week_numbers: bool,
) -> Seq<Cell> {
    Seq::new(
        text.len(),
        |i: int|
            spec_cell(
                text[i],
                spec_char_role(i, starting_day, today, monochromatic, week_numbers),
            ),
    )
}

/// The characters of `text`, all standing for `role`.
pub open spec fn spec_uniform_cells(text: Seq<char>, role: Role) -> Seq<Cell> {
    Seq::new(text.len(), |i: int| spec_cell(text[i], role))
}

/// What the title line of a month stands for.
pub open spec fn spec_title_role(monochromatic: bool) -> Role {
    if monochromatic {
        Role::Plain
    } else {
        Role::MonthTitle
    }
}

/// The year in the middle of a field of 63 columns behind one blank, the odd
/// blank to the right.
pub open spec fn spec_year_text(year: int) -> Seq<char> {
    let padding = 63 - spec_decimal(year).len();
    seq![' '] + spec_blanks(padding / 2) + spec_decimal(year) + spec_blanks(padding - padding / 2)
}

/// The line above the calendar: the year as a title, six columns further to the
/// right where there are gutters.
pub open spec fn spec_year_line(year: int, week_numbers: bool) -> Seq<Cell> {
    spec_uniform_cells(
        spec_blanks(
            if week_numbers {
                6
            } else {
                0
            },
        ),
        Role::Plain,
    ) + spec_uniform_cells(spec_year_text(year), Role::YearTitle)
}

/// Appends the characters of `text` to `cells`, all standing for `role`.
pub fn push_uniform(cells: &mut Vec<Cell>, text: &str, role: Role)
    ensures
        final(cells)@ == old(cells)@ + spec_uniform_cells(text@, role),
{
    let len = text.unicode_len();
    let mut i: usize = 0;
    assert(cells@ =~= old(cells)@ + spec_uniform_cells(text@.take(0), role));
    while i < len
        invariant
            len == text@.len(),
            i <= len,
            cells@ == old(cells)@ + spec_uniform_cells(text@.take(i as int), role),
        decreases len - i,
    {
        cells.push(Cell { ch: text.get_char(i), role });
        i += 1;
        assert(cells@ =~= old(cells)@ + spec_uniform_cells(text@.take(i as int), role));
    }
    assert(text@.take(len as int) =~= text@);
}

/// The column in which `weekday` (0 is Sunday) stands.
pub fn weekday_column(weekday: u32, starting_day: u32) -> (column: usize)
    requires
        weekday < 7,
    ensures
        column == spec_weekday_column(weekday as int, starting_day as int),
        column < 7,
{
    ((weekday + 7 - starting_day % 7) % 7) as usize
}

/// Appends a header or body line to `cells`, each character with what it stands
/// for: the two characters of the day to mark, if `today_included` says that it
/// stands in this line, in column `pos_today`; Saturday, Sunday and the gutter
/// unless the calendar is monochromatic.
pub fn style_row(
    cells: &mut Vec<Cell>,
    row: &str,
    starting_day: u32,
    today_included: bool,
    pos_today: u32,
    monochromatic: bool,
    week_numbers: bool,
)
    requires
        pos_today < 7,
    ensures
        final(cells)@ == old(cells)@ + spec_row_cells(
            row@,
            starting_day as int,
            if today_included {
                Some(pos_today as int)
            } else {
                None
            },
            monochromatic,
            week_numbers,
        ),
{
    let gutter: usize = if week_numbers {
        1
    } else {
        0
    };
    let char_saturday: usize = 1 + 3 * (weekday_column(6, starting_day) + gutter);
    let char_sunday: usize = 1 + 3 * (weekday_column(0, starting_day) + gutter);
    let char_today: usize = 1 + 3 * (pos_today as usize + gutter);
    let ghost today = if today_included {
        Some(pos_today as int)
    } else {
        None
    };
    let len = row.unicode_len();
    let mut i: usize = 0;
    assert(cells@ =~= old(cells)@ + spec_row_cells(
        row@.take(0),
        starting_day as int,
        today,
        monochromatic,
        week_numbers,
    ));
    while i < len
        invariant
            len == row@.len(),
            i <= len,
            char_saturday == spec_day_start(
                spec_weekday_column(6, starting_day as int),
                week_numbers,
            ),
            char_sunday == spec_day_start(
                spec_weekday_column(0, starting_day as int),
                week_numbers,
            ),
            char_today == spec_day_start(pos_today as int, week_numbers),
            today == if today_included {
                Some(pos_today as int)
            } else {
                None
            },
            cells@ == old(cells)@ + spec_row_cells(
                row@.take(i as int),
                starting_day as int,
                today,
                monochromatic,
                week_numbers,
            ),
        decreases len - i,
    {
        let role = if today_included && (i == char_today || i == char_today + 1) {
            Role::Today
        } else if monochromatic {
            Role::Plain
        } else if i == char_saturday || i == char_saturday + 1 {
            Role::Saturday
        } else if i == char_sunday || i == char_sunday + 1 {
            Role::Sunday
        } else if week_numbers && i < 3 {
            Role::WeekNumber
        } else {
            Role::Plain
        };
        cells.push(Cell { ch: row.get_char(i), role });
        i += 1;
        assert(cells@ =~= old(cells)@ + spec_row_cells(
            row@.take(i as int),
            starting_day as int,
            today,
            monochromatic,
            week_numbers,
        ));
    }
    assert(row@.take(len as int) =~= row@);
}

/// The line above the calendar.
pub fn year_line(year: u32, week_numbers: bool) -> (line: Vec<Cell>)
    ensures
        line@ == spec_year_line(year as int, week_numbers),
{
    let mut line: Vec<Cell> = Vec::new();
    let mut lead = String::new();
    push_blanks(
        &mut lead,
        if week_numbers {
            6
        } else {
            0
        },
    );
    push_uniform(&mut line, lead.as_str(), Role::Plain);
    let padding = YEAR_FIELD - decimal_len(year);
    let left = padding / 2;
    let mut title = String::new();
    title.push(' ');
    push_blanks(&mut title, left);
    push_decimal(&mut title, year);
    push_blanks(&mut title, padding - left);
    assert(title@ =~= spec_year_text(year as int));
    push_uniform(&mut line, title.as_str(), Role::YearTitle);
    line
}

} // verus!
