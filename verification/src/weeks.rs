//! The gutter of week numbers in front of a month block.

use crate::grid::lemma_body_cells_len;
use crate::grid::spec_body_cell;
use crate::grid::spec_body_cells;
use crate::grid::spec_body_row;
use crate::grid::spec_month_lines;
use crate::grid::spec_rows_used;
use crate::text::is_blank;
use crate::text::lemma_right_justified_three;
use crate::text::push_blanks;
use crate::text::push_right_justified;
use crate::text::spec_blanks;
use crate::text::spec_is_blank;
use crate::text::spec_lines;
use crate::text::spec_right_justified;
use vstd::prelude::*;

verus! {

/// Characters of the gutter.
pub const GUTTER_WIDTH: usize = 3;

/// The gutter in front of a numbered line: a blank, then the week number in a
/// field of two characters.
pub open spec fn spec_gutter(number: int) -> Seq<char> {
    seq![' '] + spec_right_justified(number, 2)
}

/// Whether a line closes a week: it shows a day and its last column is taken.
pub open spec fn spec_closes_week(line: Seq<char>) -> bool {
    !spec_is_blank(line) && line.last() != ' '
}

/// How many of the body lines in front of line `upto` close a week; the first two
/// lines of a block are its title and header.
pub open spec fn spec_weeks_closed(lines: Seq<Seq<char>>, upto: int) -> int
    decreases upto,
{
    if upto <= 2 {
        0
    } else {
        spec_weeks_closed(lines, upto - 1) + if spec_closes_week(lines[upto - 1]) {
            1int
        } else {
            0int
        }
    }
}

/// Line `i` of a block with its gutter, where the first body line belongs to week
/// `week_counter`: blanks in front of title and header, the running week number
/// in front of every body line that shows a day, and blank lines as they are.
pub open spec fn spec_numbered_line(lines: Seq<Seq<char>>, week_counter: int, i: int) -> Seq<
    char,
> {
    if i < 2 {
        spec_blanks(3) + lines[i]
    } else if spec_is_blank(lines[i]) {
        lines[i]
    } else {
        spec_gutter(week_counter + spec_weeks_closed(lines, i)) + lines[i]
    }
}

/// A block with its gutter.
pub open spec fn spec_numbered(lines: Seq<Seq<char>>, week_counter: int) -> Seq<Seq<char>> {
    Seq::new(lines.len(), |i: int| spec_numbered_line(lines, week_counter, i))
}

/// Never more weeks are closed than there are body lines.
pub proof fn lemma_weeks_closed_bound(lines: Seq<Seq<char>>, upto: int)
    ensures
        0 <= spec_weeks_closed(lines, upto),
        upto >= 2 ==> spec_weeks_closed(lines, upto) <= upto - 2,
    decreases upto,
{
    if upto > 2 {
        lemma_weeks_closed_bound(lines, upto - 1);
    }
}

/// Puts the gutter of week numbers in front of the lines of a block, and gives the
/// number of the week that is open after it.
pub fn add_week_numbers(printable: Vec<String>, week_counter: u32) -> (numbered: (
    Vec<String>,
    u32,
))
    requires
        week_counter + printable.len() <= u32::MAX,
    ensures
        spec_lines(numbered.0@) == spec_numbered(spec_lines(printable@), week_counter as int),
        numbered.1 == week_counter + spec_weeks_closed(
            spec_lines(printable@),
            if printable.len() < 2 {
                2
            } else {
                printable.len() as int
            },
        ),
{
    let ghost lines = spec_lines(printable@);
    let mut result: Vec<String> = Vec::new();
    let mut counter = week_counter;
    let mut line_idx: usize = 0;
    while line_idx < printable.len()
        invariant
            line_idx <= printable.len(),
            lines == spec_lines(printable@),
            week_counter + printable.len() <= u32::MAX,
            result.len() == line_idx,
            counter == week_counter + spec_weeks_closed(
                lines,
                if line_idx < 2 {
                    2
                } else {
                    line_idx as int
                },
            ),
            forall|i: int|
                0 <= i < line_idx ==> (#[trigger] result[i])@ == spec_numbered_line(
                    lines,
                    week_counter as int,
                    i,
                ),
        decreases printable.len() - line_idx,
    {
        let line = printable[line_idx].as_str();
        assert(line@ == lines[line_idx as int]);
        let mut text = String::new();
        if line_idx < 2 {
            push_blanks(&mut text, GUTTER_WIDTH);
            text.append(line);
        } else if is_blank(line) {
            text.append(line);
            assert(text@ =~= line@);
        } else {
            proof {
                lemma_weeks_closed_bound(lines, line_idx as int);
            }
            text.push(' ');
            push_right_justified(&mut text, counter, 2);
            text.append(line);
            assert(text@ =~= spec_gutter(counter as int) + line@);
            let len = line.unicode_len();
            if line.get_char(len - 1) != ' ' {
                counter += 1;
            }
        }
        result.push(text);
        line_idx += 1;
    }
    assert(spec_lines(result@) =~= spec_numbered(lines, week_counter as int));
    (result, counter)
}

/// The characters of a row of cells are those of its cells, three for each.
pub proof fn lemma_body_cells_char(
    offset: int,
    days: int,
    row: int,
    count: int,
    column: int,
    k: int,
)
    requires
        0 <= column < count,
        0 <= k < 3,
        days < 1000,
    ensures
        spec_body_cells(offset, days, row, count).len() == 3 * count,
        spec_body_cell(offset, days, row, column).len() == 3,
        spec_body_cells(offset, days, row, count)[3 * column + k] == spec_body_cell(
            offset,
            days,
            row,
            column,
        )[k],
    decreases count,
{
    lemma_body_cells_len(offset, days, row, count);
    lemma_body_cells_len(offset, days, row, count - 1);
    let day = row * 7 + column - offset + 1;
    if 1 <= day <= days {
        lemma_right_justified_three(day);
    }
    let last_day = row * 7 + count - 1 - offset + 1;
    if 1 <= last_day <= days {
        lemma_right_justified_three(last_day);
    }
    if column < count - 1 {
        lemma_body_cells_char(offset, days, row, count - 1, column, k);
    }
}

/// A row in which a day stands is not blank, and its last column is taken exactly
/// when the week is full before the month ends; a row without a day is blank.
pub proof fn lemma_body_row_shape(offset: int, days: int, row: int)
    requires
        0 <= offset < 7,
        1 <= days <= 31,
        0 <= row,
    ensures
        spec_body_row(offset, days, row).len() == 21,
        row < spec_rows_used(offset, days) ==> !spec_is_blank(spec_body_row(offset, days, row)),
        row >= spec_rows_used(offset, days) ==> spec_is_blank(spec_body_row(offset, days, row)),
        spec_body_row(offset, days, row).last() != ' ' <==> 7 * row + 7 - offset <= days,
{
    let line = spec_body_row(offset, days, row);
    lemma_body_cells_len(offset, days, row, 7);
    lemma_body_cells_char(offset, days, row, 7, 6, 2);
    let last_day = row * 7 + 6 - offset + 1;
    if 1 <= last_day <= days {
        lemma_right_justified_three(last_day);
    }
    if row < spec_rows_used(offset, days) {
        // The first day of the row, or the first of the month, stands in it.
        let column = if row == 0 {
            offset
        } else {
            0
        };
        let day = row * 7 + column - offset + 1;
        assert(1 <= day <= days);
        lemma_right_justified_three(day);
        lemma_body_cells_char(offset, days, row, 7, column, 2);
        assert(line[3 * column + 2] != ' ');
    } else {
        assert forall|i: int| 0 <= i < line.len() implies line[i] == ' ' by {
            let column = i / 3;
            let k = i % 3;
            lemma_body_cells_char(offset, days, row, 7, column, k);
        }
    }
}

/// In a month block the weeks closed before body row `row` are the rows before
/// it, as far as the month fills whole weeks.
pub proof fn lemma_month_weeks_closed(
    name: Seq<char>,
    name_width: int,
    week_names: Seq<Seq<char>>,
    starting_day: int,
    offset: int,
    days: int,
    week_numbers: bool,
    row: int,
)
    requires
        0 <= offset < 7,
        1 <= days <= 31,
        0 <= row <= 7,
    ensures
        spec_weeks_closed(
            spec_month_lines(
                name,
                name_width,
                week_names,
                starting_day,
                offset,
                days,
                week_numbers,
            ),
            2 + row,
        ) == if row <= (offset + days) / 7 {
            row
        } else {
            (offset + days) / 7
        },
    decreases row,
{
    if row > 0 {
        lemma_month_weeks_closed(
            name,
            name_width,
            week_names,
            starting_day,
            offset,
            days,
            week_numbers,
            row - 1,
        );
        lemma_body_row_shape(offset, days, row - 1);
        let lines = spec_month_lines(
            name,
            name_width,
            week_names,
            starting_day,
            offset,
            days,
            week_numbers,
        );
        let line = lines[2 + row - 1];
        if row - 1 < spec_rows_used(offset, days) {
            assert(line == spec_body_row(offset, days, row - 1));
        } else {
            assert(line =~= spec_blanks(
                21 + if week_numbers {
                    3int
                } else {
                    0int
                },
            ));
            assert(spec_is_blank(line));
        }
    }
}

} // verus!
