//! The printable surface: the year above the month blocks, line by line, every
//! character with what it stands for.

use crate::date::days_by_month;
use crate::date::spec_days_in_month;
use crate::layout::calendar;
use crate::layout::check_config;
use crate::layout::lemma_block_shape;
use crate::layout::lemma_month_offset;
use crate::layout::spec_check_config;
use crate::layout::spec_grid_block;
use crate::layout::spec_is_calendar;
use crate::layout::spec_month_block;
use crate::layout::spec_month_offset;
use crate::layout::spec_week_counter;
use crate::layout::ConfigError;
use crate::layout::ROWS;
use crate::locale::spec_month_names;
use crate::locale::spec_week_day_names;
use crate::locale::LocaleInfo;
use crate::position::get_today_position;
use crate::position::lemma_position_shows_day;
use crate::position::spec_is_date;
use crate::position::spec_today_position;
use crate::style::push_uniform;
use crate::style::spec_cell;
use crate::style::spec_day_start;
use crate::style::spec_row_cells;
use crate::style::spec_title_role;
use crate::style::spec_uniform_cells;
use crate::style::spec_year_line;
use crate::style::style_row;
use crate::style::year_line;
use crate::style::Cell;
use crate::style::Role;
use crate::text::lemma_decimal_shape;
use crate::text::spec_right_justified;
use crate::weeks::lemma_body_cells_char;
use crate::weeks::lemma_body_row_shape;
use vstd::prelude::*;

verus! {

/// Lines of a month block that are shown: title, header and six body lines.
pub const SHOWN_LINES: usize = 8;

/// What is wrong with a year, a first day of the week and a day to mark, if
/// anything. The day to mark is only looked at where it lies in the year shown.
pub open spec fn spec_check_display(
    year: int,
    starting_day: int,
    today: Option<(u32, u32, u32)>,
) -> Option<ConfigError> {
    if spec_check_config(year, starting_day) is Some {
        spec_check_config(year, starting_day)
    } else if today matches Some(date) && date.0 == year && !spec_is_date(
        year,
        date.1 as int,
        date.2 as int,
    ) {
        Some(ConfigError::DateOutOfRange)
    } else {
        None
    }
}

/// The place of the day to mark, if it lies in the year shown.
pub open spec fn spec_today_target(year: int, starting_day: int, today: Option<(u32, u32, u32)>)
    -> Option<(int, int, int, int)> {
    match today {
        Some(date) => if date.0 == year {
            Some(spec_today_position(year, date.1 as int, date.2 as int, starting_day))
        } else {
            None
        },
        None => None,
    }
}

/// The column of the day to mark in line `line` of the block in row `row` and
/// column `column`, if it stands there.
pub open spec fn spec_today_in_line(
    target: Option<(int, int, int, int)>,
    row: int,
    column: int,
    line: int,
) -> Option<int> {
    match target {
        Some(place) => if place.0 == row && place.1 == column && place.3 + 2 == line {
            Some(place.2)
        } else {
            None
        },
        None => None,
    }
}

/// One line of one block with what its characters stand for: line 0 is the title,
/// the others are header and body.
pub open spec fn spec_segment(
    text: Seq<char>,
    line: int,
    starting_day: int,
    today: Option<int>,
    monochromatic: bool,
    week_numbers: bool,
) -> Seq<Cell> {
    if line == 0 {
        spec_uniform_cells(text, spec_title_role(monochromatic))
    } else {
        spec_row_cells(text, starting_day, today, monochromatic, week_numbers)
    }
}

/// Line `line` of the first `count` blocks of a row of months side by side, each
/// followed by a blank; `texts` holds that line of each block.
pub open spec fn spec_line_cells(
    texts: Seq<Seq<char>>,
    row: int,
    line: int,
    starting_day: int,
    target: Option<(int, int, int, int)>,
    monochromatic: bool,
    week_numbers: bool,
    count: int,
) -> Seq<Cell>
    decreases count,
{
    if count <= 0 {
        Seq::empty()
    } else {
        spec_line_cells(
            texts,
            row,
            line,
            starting_day,
            target,
            monochromatic,
            week_numbers,
            count - 1,
        ) + spec_segment(
            texts[count - 1],
            line,
            starting_day,
            spec_today_in_line(target, row, count - 1, line),
            monochromatic,
            week_numbers,
        ) + seq![spec_cell(' ', Role::Plain)]
    }
}

/// Line `line` of the three months in row `row` of the calendar of `year`.
pub open spec fn spec_display_line(
    year: int,
    starting_day: int,
    monochromatic: bool,
    week_numbers: bool,
    month_names: Seq<Seq<char>>,
    week_names: Seq<Seq<char>>,
    today: Option<(u32, u32, u32)>,
    row: int,
    line: int,
) -> Seq<Cell> {
    spec_line_cells(
        Seq::new(
            3,
            |column: int|
                spec_month_block(
                    year,
                    3 * row + column + 1,
                    starting_day,
                    week_numbers,
                    month_names,
                    week_names,
                )[line],
        ),
        row,
        line,
        starting_day,
        spec_today_target(year, starting_day, today),
        monochromatic,
        week_numbers,
        3,
    )
}

/// In the line of its month in which a day stands, the two characters that are
/// marked for it are the last two of the day's cell: its number, with a blank in
/// front where it has one digit.
pub proof fn lemma_marked_characters_show_day(
    year: int,
    month: int,
    day: int,
    starting_day: int,
    monochromatic: bool,
    week_numbers: bool,
    month_names: Seq<Seq<char>>,
    week_names: Seq<Seq<char>>,
)
    requires
        spec_is_date(year, month, day),
    ensures
        ({
            let place = spec_today_position(year, month, day, starting_day);
            let text = spec_month_block(
                year,
                month,
                starting_day,
                week_numbers,
                month_names,
                week_names,
            )[place.3 + 2];
            let cells = spec_row_cells(
                text,
                starting_day,
                Some(place.2),
                monochromatic,
                week_numbers,
            );
            let start = spec_day_start(place.2, week_numbers);
            &&& 2 <= place.3 + 2 < 8
            &&& 0 < start && start + 1 < cells.len()
            &&& cells[start] == spec_cell(spec_right_justified(day, 3)[1], Role::Today)
            &&& cells[start + 1] == spec_cell(spec_right_justified(day, 3)[2], Role::Today)
            &&& forall|i: int|
                0 <= i < cells.len() && i != start && i != start + 1 ==> (#[trigger] cells[i]).role
                    != Role::Today
        }),
{
    lemma_position_shows_day(year, month, day, starting_day);
    lemma_month_offset(year, month, starting_day);
    lemma_block_shape(year, month, starting_day, week_numbers, month_names, week_names);
    let place = spec_today_position(year, month, day, starting_day);
    let offset = spec_month_offset(year, month, starting_day);
    let days = spec_days_in_month(year, month);
    let row = place.3;
    let column = place.2;
    lemma_body_row_shape(offset, days, row);
    lemma_body_cells_char(offset, days, row, 7, column, 1);
    lemma_body_cells_char(offset, days, row, 7, column, 2);
    lemma_decimal_shape(spec_week_counter(year, month, starting_day) + row);
}

/// The place as integers.
pub open spec fn spec_place(position: Option<(u32, u32, u32, u32)>) -> Option<(int, int, int, int)> {
    match position {
        Some(place) => Some((place.0 as int, place.1 as int, place.2 as int, place.3 as int)),
        None => None,
    }
}

/// The texts of line `line` of the blocks of a row.
pub open spec fn spec_row_texts(blocks: Seq<Vec<String>>, line: int) -> Seq<Seq<char>> {
    Seq::new(blocks.len(), |column: int| blocks[column]@[line]@)
}

/// Line `line` of the three blocks in `blocks`, which stand in row `row` of the
/// grid, side by side: each block's line with what its characters stand for, and
/// a blank behind it.
pub fn display_line(
    blocks: &Vec<Vec<String>>,
    row: usize,
    line: usize,
    starting_day: u32,
    position: Option<(u32, u32, u32, u32)>,
    monochromatic: bool,
    week_numbers: bool,
) -> (cells: Vec<Cell>)
    requires
        forall|column: int| 0 <= column < blocks.len() ==> line < (#[trigger] blocks[column]).len(),
        position matches Some(place) ==> place.2 < 7,
    ensures
        cells@ == spec_line_cells(
            spec_row_texts(blocks@, line as int),
            row as int,
            line as int,
            starting_day as int,
            spec_place(position),
            monochromatic,
            week_numbers,
            blocks.len() as int,
        ),
{
    let mut cells: Vec<Cell> = Vec::new();
    let ghost texts = spec_row_texts(blocks@, line as int);
    let ghost target = spec_place(position);
    let mut column: usize = 0;
    while column < blocks.len()
        invariant
            column <= blocks.len(),
            texts == spec_row_texts(blocks@, line as int),
            target == spec_place(position),
            forall|c: int| 0 <= c < blocks.len() ==> line < (#[trigger] blocks[c]).len(),
            position matches Some(place) ==> place.2 < 7,
            cells@ == spec_line_cells(
                texts,
                row as int,
                line as int,
                starting_day as int,
                target,
                monochromatic,
                week_numbers,
                column as int,
            ),
        decreases blocks.len() - column,
    {
        let text = blocks[column][line].as_str();
        assert(text@ == texts[column as int]);
        if line == 0 {
            let role = if monochromatic {
                Role::Plain
            } else {
                Role::MonthTitle
            };
            push_uniform(&mut cells, text, role);
        } else {
            let (today_included, x) = match position {
                Some(place) => {
                    if place.0 as usize == row && place.1 as usize == column && line >= 2
                        && place.3 as usize == line - 2 {
                        (true, place.2)
                    } else {
                        (false, 0)
                    }
                },
                None => (false, 0),
            };
            style_row(
                &mut cells,
                text,
                starting_day,
                today_included,
                x,
                monochromatic,
                week_numbers,
            );
        }
        cells.push(Cell { ch: ' ', role: Role::Plain });
        column += 1;
    }
    cells
}

/// Whether `day` is a day of `month` in `year`.
pub fn is_date(year: u32, month: u32, day: u32) -> (valid: bool)
    ensures
        valid == spec_is_date(year as int, month as int, day as int),
{
    if month < 1 || month > 12 || day < 1 {
        return false;
    }
    let days = days_by_month(year);
    day <= days[month as usize]
}

/// The calendar of `year` as it is shown: first the line with the year, then for
/// each of the four rows of months eight lines, in which the three blocks stand
/// side by side, each followed by a blank. Every character comes with what it
/// stands for.
///
/// `today` is the day to mark as year, month and day; it is marked if it lies in
/// `year`. A year outside `1..=MAX_YEAR`, a first day of the week above 6, or a
/// day to mark that lies in `year` and is no day of it, is refused.
pub fn display(
    year: u32,
    locale: &LocaleInfo,
    starting_day: u32,
    monochromatic: bool,
    week_numbers: bool,
    today: Option<(u32, u32, u32)>,
) -> (result: Result<Vec<Vec<Cell>>, ConfigError>)
    ensures
        match result {
            Ok(lines) => {
                &&& spec_check_display(year as int, starting_day as int, today) is None
                &&& lines.len() == 33
                &&& lines[0]@ == spec_year_line(year as int, week_numbers)
                &&& forall|row: int, line: int|
                    0 <= row < 4 && 0 <= line < 8 ==> (#[trigger] lines[1 + 8 * row + line])@
                        == spec_display_line(
                        year as int,
                        starting_day as int,
                        monochromatic,
                        week_numbers,
                        spec_month_names(locale.spec_months()),
                        spec_week_day_names(locale.spec_abbreviated_days()),
                        today,
                        row,
                        line,
                    )
            },
            Err(error) => spec_check_display(year as int, starting_day as int, today) == Some(
                error,
            ),
        },
{
    if let Some(error) = check_config(year, starting_day) {
        return Err(error);
    }
    let t_pos: Option<(u32, u32, u32, u32)> = match today {
        Some(date) => {
            if date.0 == year {
                if !is_date(year, date.1, date.2) {
                    return Err(ConfigError::DateOutOfRange);
                }
                proof {
                    lemma_position_shows_day(
                        year as int,
                        date.1 as int,
                        date.2 as int,
                        starting_day as int,
                    );
                }
                Some(get_today_position(date.0, date.1, date.2, starting_day))
            } else {
                None
            }
        },
        None => None,
    };
    assert(spec_place(t_pos) == spec_today_target(year as int, starting_day as int, today));
    let rows = match calendar(year, locale, starting_day, week_numbers) {
        Ok(rows) => rows,
        Err(error) => {
            return Err(error);
        },
    };
    let ghost names = spec_month_names(locale.spec_months());
    let ghost days_names = spec_week_day_names(locale.spec_abbreviated_days());
    let mut lines: Vec<Vec<Cell>> = Vec::new();
    lines.push(year_line(year, week_numbers));
    let mut r: usize = 0;
    while r < ROWS
        invariant
            r <= 4,
            spec_is_calendar(
                rows@,
                year as int,
                starting_day as int,
                week_numbers,
                names,
                days_names,
            ),
            t_pos matches Some(place) ==> place.2 < 7,
            spec_place(t_pos) == spec_today_target(year as int, starting_day as int, today),
            lines.len() == 1 + 8 * r,
            lines[0]@ == spec_year_line(year as int, week_numbers),
            forall|row: int, line: int|
                0 <= row < r && 0 <= line < 8 ==> (#[trigger] lines[1 + 8 * row + line])@
                    == spec_display_line(
                    year as int,
                    starting_day as int,
                    monochromatic,
                    week_numbers,
                    names,
                    days_names,
                    today,
                    row,
                    line,
                ),
        decreases 4 - r,
    {
        let mut line: usize = 0;
        while line < SHOWN_LINES
            invariant
                r < 4,
                line <= 8,
                spec_is_calendar(
                    rows@,
                    year as int,
                    starting_day as int,
                    week_numbers,
                    names,
                    days_names,
                ),
                t_pos matches Some(place) ==> place.2 < 7,
                spec_place(t_pos) == spec_today_target(year as int, starting_day as int, today),
                lines.len() == 1 + 8 * r + line,
                lines[0]@ == spec_year_line(year as int, week_numbers),
                forall|row: int, l: int|
                    0 <= row < r && 0 <= l < 8 ==> (#[trigger] lines[1 + 8 * row + l])@
                        == spec_display_line(
                        year as int,
                        starting_day as int,
                        monochromatic,
                        week_numbers,
                        names,
                        days_names,
                        today,
                        row,
                        l,
                    ),
                forall|l: int|
                    0 <= l < line ==> (#[trigger] lines[1 + 8 * r + l])@ == spec_display_line(
                        year as int,
                        starting_day as int,
                        monochromatic,
                        week_numbers,
                        names,
                        days_names,
                        today,
                        r as int,
                        l,
                    ),
            decreases 8 - line,
        {
            proof {
                assert(rows[r as int].len() == 3);
                assert forall|column: int| 0 <= column < 3 implies line < (
                #[trigger] rows[r as int][column]).len() by {
                    assert(spec_grid_block(rows@, r as int, column).len() == 9);
                }
            }
            let cells = display_line(
                &rows[r],
                r,
                line,
                starting_day,
                t_pos,
                monochromatic,
                week_numbers,
            );
            proof {
                let texts = spec_row_texts(rows[r as int]@, line as int);
                let wanted = Seq::new(
                    3,
                    |column: int|
                        spec_month_block(
                            year as int,
                            3 * r + column + 1,
                            starting_day as int,
                            week_numbers,
                            names,
                            days_names,
                        )[line as int],
                );
                assert forall|column: int| 0 <= column < 3 implies texts[column]
                    == wanted[column] by {
                    assert(spec_grid_block(rows@, r as int, column).len() == 9);
                    assert(spec_grid_block(rows@, r as int, column)[line as int]
                        == rows[r as int]@[column]@[line as int]@);
                }
                assert(texts =~= wanted);
            }
            let ghost before = lines@;
            lines.push(cells);
            proof {
                assert forall|row: int, l: int| 0 <= row < r && 0 <= l < 8 implies (
                #[trigger] lines[1 + 8 * row + l])@ == spec_display_line(
                    year as int,
                    starting_day as int,
                    monochromatic,
                    week_numbers,
                    names,
                    days_names,
                    today,
                    row,
                    l,
                ) by {
                    assert(lines[1 + 8 * row + l] == before[1 + 8 * row + l]);
                }
                assert forall|l: int| 0 <= l < line + 1 implies (#[trigger] lines[1 + 8 * r + l])@
                    == spec_display_line(
                    year as int,
                    starting_day as int,
                    monochromatic,
                    week_numbers,
                    names,
                    days_names,
                    today,
                    r as int,
                    l,
                ) by {
                    if l < line {
                        assert(lines[1 + 8 * r + l] == before[1 + 8 * r + l]);
                    }
                }
            }
            line += 1;
        }
        r += 1;
    }
    Ok(lines)
}

} // verus!
