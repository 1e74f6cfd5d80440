use rusti_cal::date::days_by_year;
use rusti_cal::date::get_days_accumulated_by_month;
use rusti_cal::grid::blank_line;
use rusti_cal::grid::body_printable;
use rusti_cal::grid::circular_week_name;
use rusti_cal::grid::first_day_printable;
use rusti_cal::grid::month_printable;
use rusti_cal::grid::remain_day_printable;
use rusti_cal::grid::title_line;
use rusti_cal::grid::week_column;
use rusti_cal::text::decimal_len;
use rusti_cal::text::is_blank;
use rusti_cal::text::push_blanks;
use rusti_cal::text::push_decimal;
use rusti_cal::text::push_right_justified;
use rusti_cal::LocaleInfo;

fn names(list: &[&str]) -> Vec<String> {
    list.iter().map(|name| name.to_string()).collect()
}

fn locale_info(months: &[&str], days: &[&str]) -> LocaleInfo {
    LocaleInfo::new(names(months), names(days)).unwrap()
}

fn english_months() -> Vec<String> {
    locale_info(
        pure_rust_locales::en_US::LC_TIME::MON,
        pure_rust_locales::en_US::LC_TIME::ABDAY,
    )
    .month_names()
}

fn english_days() -> Vec<String> {
    locale_info(
        pure_rust_locales::en_US::LC_TIME::MON,
        pure_rust_locales::en_US::LC_TIME::ABDAY,
    )
    .week_day_names()
}

fn body(year: u32, month: usize, starting_day: u32, week_numbers: bool) -> Vec<String> {
    let (accum, days) = get_days_accumulated_by_month(year);
    body_printable(
        year,
        month,
        days[month],
        &accum,
        days_by_year(year),
        starting_day,
        week_numbers,
    )
}

#[test]
fn test_circular_week_name() {
    let week_name = english_days();
    assert_eq!(
        circular_week_name(&week_name, 0),
        " Su Mo Tu We Th Fr Sa"
    );
    assert_eq!(
        circular_week_name(&week_name, 1),
        " Mo Tu We Th Fr Sa Su"
    );
    assert_eq!(
        circular_week_name(&week_name, 2),
        " Tu We Th Fr Sa Su Mo"
    );
    assert_eq!(
        circular_week_name(&week_name, 3),
        " We Th Fr Sa Su Mo Tu"
    );
    assert_eq!(
        circular_week_name(&week_name, 4),
        " Th Fr Sa Su Mo Tu We"
    );
    assert_eq!(
        circular_week_name(&week_name, 5),
        " Fr Sa Su Mo Tu We Th"
    );
    assert_eq!(
        circular_week_name(&week_name, 6),
        " Sa Su Mo Tu We Th Fr"
    );
}

#[test]
fn test_circular_week_name_pt_br() {
    let locale_info = locale_info(
        pure_rust_locales::pt_BR::LC_TIME::MON,
        pure_rust_locales::pt_BR::LC_TIME::ABDAY,
    );
    let week_name = locale_info.week_day_names();
    assert_eq!(circular_week_name(&week_name, 0), " Do Se Te Qu Qu Se Sá");
}

#[test]
fn test_remain_day_printable() {
    assert_eq!(remain_day_printable(1, 1, 1), "  1\n");
    assert_eq!(remain_day_printable(1, 2, 1), "  1");
    assert_eq!(remain_day_printable(2, 2, 1), "  2");
    assert_eq!(remain_day_printable(31, 31, 1), " 31");
    assert_eq!(remain_day_printable(31, 31, 7), " 31");
}

#[test]
fn header_goes_round_from_any_index() {
    let week_name = english_days();
    assert_eq!(circular_week_name(&week_name, 7), " Su Mo Tu We Th Fr Sa");
    assert_eq!(circular_week_name(&week_name, 10), " We Th Fr Sa Su Mo Tu");
    assert_eq!(
        circular_week_name(&week_name, usize::MAX),
        circular_week_name(&week_name, usize::MAX % 7)
    );
}

#[test]
fn week_column_of_a_day_number() {
    // Day 1 is a Sunday.
    assert_eq!(week_column(1, 0), 0);
    assert_eq!(week_column(1, 1), 6);
    assert_eq!(week_column(1, 3), 4);
    assert_eq!(week_column(1, 6), 1);
    assert_eq!(week_column(7, 0), 6);
    assert_eq!(week_column(8, 0), 0);
    // 1 January 2023, a Sunday.
    assert_eq!(week_column(738_529, 0), 0);
    assert_eq!(week_column(738_529, 1), 6);
    assert_eq!(week_column(u32::MAX, 6), (u32::MAX % 7 + 13 - 6) % 7);
    assert_eq!(week_column(0, 0), 6);
}

#[test]
fn shifting_the_week_start_shifts_the_column() {
    for day_number in [1u32, 2, 6, 7, 738_529, 738_789] {
        for starting_day in 0..7u32 {
            for k in 0..7u32 {
                let shifted = week_column(day_number, (starting_day + k) % 7);
                let plain = week_column(day_number, starting_day);
                assert_eq!(shifted, (plain + 7 - k) % 7);
            }
        }
    }
}

#[test]
fn first_day_lead_in() {
    assert_eq!(first_day_printable(1, 0), "");
    assert_eq!(first_day_printable(2, 0), "   ");
    assert_eq!(first_day_printable(4, 0), "         ");
    assert_eq!(first_day_printable(7, 0), "                  ");
    assert_eq!(first_day_printable(1, 1), "                  ");
    assert_eq!(first_day_printable(1, 3), "            ");
}

#[test]
fn remain_day_of_wide_numbers() {
    assert_eq!(remain_day_printable(0, 3, 0), "  0");
    assert_eq!(remain_day_printable(100, 3, 0), "100");
    assert_eq!(remain_day_printable(1234, 7, 0), "1234\n");
    assert_eq!(remain_day_printable(5, 1, 3), "  5");
    assert_eq!(remain_day_printable(5, 3, 3), "  5\n");
}

#[test]
fn body_of_january_2023() {
    assert_eq!(
        body(2023, 1, 0, false),
        vec![
            "  1  2  3  4  5  6  7",
            "  8  9 10 11 12 13 14",
            " 15 16 17 18 19 20 21",
            " 22 23 24 25 26 27 28",
            " 29 30 31            ",
            "                     ",
            "                     ",
        ]
    );
    assert_eq!(
        body(2023, 1, 1, false),
        vec![
            "                    1",
            "  2  3  4  5  6  7  8",
            "  9 10 11 12 13 14 15",
            " 16 17 18 19 20 21 22",
            " 23 24 25 26 27 28 29",
            " 30 31               ",
            "                     ",
        ]
    );
}

#[test]
fn body_of_a_february_of_four_weeks() {
    // February 2015 begins on a Sunday and fills four lines exactly.
    assert_eq!(
        body(2015, 2, 0, true),
        vec![
            "  1  2  3  4  5  6  7",
            "  8  9 10 11 12 13 14",
            " 15 16 17 18 19 20 21",
            " 22 23 24 25 26 27 28",
            "                        ",
            "                        ",
            "                        ",
        ]
    );
}

#[test]
fn body_lines_have_one_width() {
    for year in [1u32, 1099, 1100, 2015, 2023, 2024] {
        for starting_day in 0..7 {
            for month in 1..=12usize {
                let lines = body(year, month, starting_day, false);
                assert_eq!(lines.len(), 7);
                for line in &lines {
                    assert_eq!(line.chars().count(), 21);
                }
                let numbered = body(year, month, starting_day, true);
                assert_eq!(numbered.len(), 7);
                for line in &numbered {
                    let width = line.chars().count();
                    assert_eq!(width, if is_blank(line) { 24 } else { 21 });
                }
            }
        }
    }
}

#[test]
fn title_is_centred() {
    assert_eq!(title_line("January", 7), "       January       ");
    assert_eq!(title_line("May", 3), "         May         ");
    assert_eq!(title_line("June", 4), "         June        ");
    assert_eq!(title_line("", 0), "                     ");
    assert_eq!(title_line("12345678901234567890", 20), " 12345678901234567890");
    assert_eq!(title_line("A very long name of a month", 27), " A very long name of a month");
    assert_eq!(title_line("ab", 19), " ab ");
}

#[test]
fn month_block_of_february_2024() {
    let (accum, days) = get_days_accumulated_by_month(2024);
    let block = month_printable(
        2024,
        2,
        days[2],
        &accum,
        days_by_year(2024),
        0,
        &english_months(),
        &english_days(),
        false,
    );
    assert_eq!(
        block,
        vec![
            "       February      ",
            " Su Mo Tu We Th Fr Sa",
            "              1  2  3",
            "  4  5  6  7  8  9 10",
            " 11 12 13 14 15 16 17",
            " 18 19 20 21 22 23 24",
            " 25 26 27 28 29      ",
            "                     ",
            "                     ",
        ]
    );
}

#[test]
fn month_title_goes_by_displayed_width() {
    // Two wide characters take four columns.
    let mut months = english_months();
    months[0] = "一月".to_string();
    let (accum, days) = get_days_accumulated_by_month(2023);
    let block = month_printable(
        2023,
        1,
        days[1],
        &accum,
        days_by_year(2023),
        0,
        &months,
        &english_days(),
        false,
    );
    assert_eq!(block[0], "         一月        ");
}

#[test]
fn header_line_rotates_to_wednesday() {
    let (accum, days) = get_days_accumulated_by_month(2023);
    let block = month_printable(
        2023,
        1,
        days[1],
        &accum,
        days_by_year(2023),
        3,
        &english_months(),
        &english_days(),
        false,
    );
    assert_eq!(block[1], " We Th Fr Sa Su Mo Tu");
}

#[test]
fn text_building_blocks() {
    let mut text = String::from("x");
    push_blanks(&mut text, 0);
    assert_eq!(text, "x");
    push_blanks(&mut text, 3);
    assert_eq!(text, "x   ");
    push_decimal(&mut text, 0);
    push_decimal(&mut text, 4_294_967_295);
    assert_eq!(text, "x   04294967295");
    let mut field = String::new();
    push_right_justified(&mut field, 7, 3);
    push_right_justified(&mut field, 42, 2);
    push_right_justified(&mut field, 123, 2);
    push_right_justified(&mut field, 5, 0);
    assert_eq!(field, "  7421235");
    assert_eq!(decimal_len(0), 1);
    assert_eq!(decimal_len(9), 1);
    assert_eq!(decimal_len(10), 2);
    assert_eq!(decimal_len(999), 3);
    assert_eq!(decimal_len(u32::MAX), 10);
    assert!(is_blank(""));
    assert!(is_blank("   "));
    assert!(!is_blank("  1"));
    assert!(!is_blank("\t"));
    assert_eq!(blank_line(false), " ".repeat(21));
    assert_eq!(blank_line(true), " ".repeat(24));
}
