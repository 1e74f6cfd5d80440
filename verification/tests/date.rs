use rusti_cal::date::by_year;
use rusti_cal::date::count_leap_years;
use rusti_cal::date::days_by_date;
use rusti_cal::date::days_by_month;
use rusti_cal::date::days_by_year;
use rusti_cal::date::get_days_accumulated_by_month;
use rusti_cal::date::is_leap_year;
use rusti_cal::date::running_totals;
use rusti_cal::date::MAX_YEAR;
use rusti_cal::date::REFORM_YEAR;
use rusti_cal::date::SPECIAL_LEAP_YEARS;

#[test]
fn test_is_leap_year() {
    let test_cases = [
        (100, true),
        (400, true),
        (1000, true),
        (1100, false),
        (2022, false),
        (2023, false),
        (2024, true),
        (2025, false),
        (2300, false),
    ];
    for test_case in test_cases.iter() {
        assert_eq!(
            is_leap_year(test_case.0),
            test_case.1,
            "{} is {} a leap year",
            test_case.0,
            if test_case.1 { "" } else { "not" }
        );
    }
}

#[test]
fn test_count_leap_years() {
    let test_cases = [(400, 99), (401, 100), (1100, 274), (1200, 298), (2022, 498)];
    for test_case in test_cases.iter() {
        assert_eq!(
            count_leap_years(test_case.0),
            test_case.1,
            "Year {}",
            test_case.0
        );
    }
}

#[test]
fn test_days_by_year() {
    let test_cases = [
        (0, 0),
        (1, 0),
        (2, 365),
        (3, 730),
        (4, 1095),
        (5, 1461),
        (6, 1826),
        (7, 2191),
        (8, 2556),
        (9, 2922),
        (10, 3287),
        (400, 145734),
        (401, 146100),
        (402, 146465),
        (403, 146830),
        (404, 147195),
        (800, 291834),
        (801, 292200),
        (802, 292565),
        (803, 292930),
        (804, 293295),
        (2022, 738163),
        (2023, 738528),
        (2024, 738893),
        (2025, 739259),
    ];
    for test_case in test_cases.iter() {
        assert_eq!(
            days_by_year(test_case.0),
            test_case.1,
            "Year {}",
            test_case.0
        );
    }
}

#[test]
fn test_days_by_month() {
    let not_leap = vec![0, 31, 28, 31, 30, 31, 30, 31, 31, 30, 31, 30, 31];
    let leap = vec![0, 31, 29, 31, 30, 31, 30, 31, 31, 30, 31, 30, 31];
    let test_cases = [(2022, not_leap), (2024, leap)];
    for test_case in test_cases.iter() {
        assert_eq!(
            days_by_month(test_case.0),
            test_case.1,
            "Year {}",
            test_case.0
        );
    }
}

#[test]
fn test_days_by_date() {
    assert_eq!(
        days_by_date(
            0,
            0,
            0,
            &vec![0, 31, 28, 31, 30, 31, 30, 31, 31, 30, 31, 30, 31],
            1
        ),
        0
    );
    assert_eq!(
        days_by_date(
            7,
            4,
            0,
            &vec![0, 31, 28, 31, 30, 31, 30, 31, 31, 30, 31, 30, 31],
            1
        ),
        38
    );
}

#[test]
fn test_get_days_accumulated_by_month() {
    assert_eq!(
        get_days_accumulated_by_month(2000),
        (
            vec![0, 31, 60, 91, 121, 152, 182, 213, 244, 274, 305, 335, 366],
            vec![0, 31, 29, 31, 30, 31, 30, 31, 31, 30, 31, 30, 31]
        )
    );
    assert_eq!(
        get_days_accumulated_by_month(1600),
        (
            vec![0, 31, 60, 91, 121, 152, 182, 213, 244, 274, 305, 335, 366],
            vec![0, 31, 29, 31, 30, 31, 30, 31, 31, 30, 31, 30, 31]
        )
    );
    assert_eq!(
        get_days_accumulated_by_month(1700),
        (
            vec![0, 31, 59, 90, 120, 151, 181, 212, 243, 273, 304, 334, 365],
            vec![0, 31, 28, 31, 30, 31, 30, 31, 31, 30, 31, 30, 31]
        )
    );
}

#[test]
fn leap_years_follow_both_rules() {
    // Every fourth year up to the reform year, also the hundreds.
    assert_eq!(REFORM_YEAR, 1099);
    assert!(is_leap_year(0));
    assert!(is_leap_year(4));
    assert!(is_leap_year(900));
    assert!(is_leap_year(1096));
    assert!(!is_leap_year(1099));
    // After it, the hundreds only where 400 divides them.
    assert!(is_leap_year(1104));
    assert!(is_leap_year(1200));
    assert!(is_leap_year(1600));
    assert!(!is_leap_year(1700));
    assert!(!is_leap_year(1800));
    assert!(!is_leap_year(1900));
    assert!(is_leap_year(2000));
    assert!(is_leap_year(2024));
    assert!(!is_leap_year(2023));
    assert!(!is_leap_year(u32::MAX));
}

#[test]
fn month_lengths_add_up_to_the_year() {
    for year in [1u32, 4, 1099, 1100, 1900, 2000, 2023, 2024] {
        let days = days_by_month(year);
        let total: u32 = days[1..].iter().sum();
        assert_eq!(total == 366, is_leap_year(year), "Year {}", year);
        assert_eq!(total, if is_leap_year(year) { 366 } else { 365 });
    }
}

#[test]
fn year_length_is_difference_of_days_before() {
    for year in [1u32, 2, 1099, 1100, 1101, 2023, 2024, MAX_YEAR] {
        let (accum, _) = get_days_accumulated_by_month(year);
        assert_eq!(
            accum[12],
            days_by_year(year + 1) - days_by_year(year),
            "Year {}",
            year
        );
    }
}

#[test]
fn adding_up_and_formula_agree() {
    for year in 0..=10000u32 {
        assert_eq!(by_year(year), days_by_year(year), "Year {}", year);
    }
    assert_eq!(by_year(10000), 3_652_067);
}

#[test]
fn days_before_first_years() {
    assert_eq!(days_by_year(0), 0);
    assert_eq!(days_by_year(1), 0);
    assert_eq!(by_year(0), 0);
    assert_eq!(by_year(1), 0);
    assert_eq!(count_leap_years(0), 0);
    assert_eq!(count_leap_years(1), 0);
    assert_eq!(count_leap_years(5), 1);
}

#[test]
fn day_numbers_fit_up_to_the_last_year() {
    assert_eq!(MAX_YEAR, 11_759_221);
    assert_eq!(days_by_year(MAX_YEAR), 4_294_966_919);
    assert_eq!(days_by_year(MAX_YEAR + 1), 4_294_967_284);
    assert_eq!(SPECIAL_LEAP_YEARS, 8);
    assert_eq!(count_leap_years(1099), 274);
    assert_eq!(count_leap_years(1100), 274);
    assert_eq!(count_leap_years(1101), 274);
    assert_eq!(count_leap_years(1105), 275);
}

#[test]
fn running_totals_of_a_table() {
    assert_eq!(running_totals(&vec![]), Vec::<u32>::new());
    assert_eq!(running_totals(&vec![5]), vec![5]);
    assert_eq!(running_totals(&vec![1, 2, 3, 4]), vec![1, 3, 6, 10]);
}

#[test]
fn day_number_of_a_date() {
    let (accum, _) = get_days_accumulated_by_month(2023);
    // 1 January 2023
    assert_eq!(days_by_date(1, 1, 2023, &accum, days_by_year(2023)), 738_529);
    // 18 September 2023
    assert_eq!(days_by_date(18, 9, 2023, &accum, days_by_year(2023)), 738_789);
    // In year 1 the days before the year are not added, whatever is handed in.
    assert_eq!(days_by_date(1, 1, 1, &accum, 99), 1);
    assert_eq!(days_by_date(1, 2, 1, &accum, 99), 32);
}
