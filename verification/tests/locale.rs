use rusti_cal::locale::choose_locale_tag;
use rusti_cal::locale::locale_tag;
use rusti_cal::locale::replace_first;
use rusti_cal::locale::to_titlecase;
use rusti_cal::locale::two_columns;
use rusti_cal::LocaleInfo;

fn names(list: &[&str]) -> Vec<String> {
    list.iter().map(|name| name.to_string()).collect()
}

#[test]
fn test_titlecase() {
    assert_eq!(to_titlecase("January"), "January");
    assert_eq!(to_titlecase("április"), "Április");
}

#[test]
fn titlecase_edge_cases() {
    assert_eq!(to_titlecase(""), "");
    assert_eq!(to_titlecase("a"), "A");
    assert_eq!(to_titlecase("1st"), "1st");
    // One character may become several.
    assert_eq!(to_titlecase("ßa"), "SSa");
    assert_eq!(to_titlecase("éTÉ"), "ÉTÉ");
}

#[test]
fn first_character_is_replaced() {
    assert_eq!(replace_first("", "X"), "");
    assert_eq!(replace_first("abc", ""), "bc");
    assert_eq!(replace_first("abc", "XY"), "XYbc");
    assert_eq!(replace_first("á", "Á"), "Á");
}

#[test]
fn names_take_two_columns() {
    assert_eq!(two_columns(""), "  ");
    assert_eq!(two_columns("V"), "V ");
    assert_eq!(two_columns("Sz"), "Sz");
    assert_eq!(two_columns("Sun"), "Su");
    assert_eq!(two_columns("Sáb"), "Sá");
}

#[test]
fn locale_needs_twelve_months_and_seven_days() {
    let months = names(pure_rust_locales::POSIX::LC_TIME::MON);
    let days = names(pure_rust_locales::POSIX::LC_TIME::ABDAY);
    assert!(LocaleInfo::new(months.clone(), days.clone()).is_some());
    assert!(LocaleInfo::new(months[..11].to_vec(), days.clone()).is_none());
    assert!(LocaleInfo::new(months.clone(), days[..6].to_vec()).is_none());
    assert!(LocaleInfo::new(Vec::new(), Vec::new()).is_none());
    assert!(LocaleInfo::new(days, months).is_none());
}

#[test]
fn parse_invalid_locale() {
    assert_eq!(locale_tag(" "), "POSIX");
    assert_eq!(locale_tag("bogus"), "POSIX");
}

#[test]
fn parse_default_locale() {
    assert_eq!(locale_tag(""), "POSIX");
    let res = LocaleInfo::new(
        names(pure_rust_locales::POSIX::LC_TIME::MON),
        names(pure_rust_locales::POSIX::LC_TIME::ABDAY),
    )
    .unwrap();
    let months = res.month_names();
    assert_eq!(months.len(), 12);
    assert_eq!(months[0], "January");
    assert_eq!(months[1], "February");
    assert_eq!(months[2], "March");
    assert_eq!(months[3], "April");
    assert_eq!(months[4], "May");
    assert_eq!(months[5], "June");
    assert_eq!(months[6], "July");
    assert_eq!(months[7], "August");
    assert_eq!(months[8], "September");
    assert_eq!(months[9], "October");
    assert_eq!(months[10], "November");
    assert_eq!(months[11], "December");
    let days = res.week_day_names();
    assert_eq!(days, ["Su", "Mo", "Tu", "We", "Th", "Fr", "Sa"]);
}

#[test]
fn parse_english_locale() {
    assert_eq!(locale_tag("en_AU"), "en_AU");
    let res = LocaleInfo::new(
        names(pure_rust_locales::en_AU::LC_TIME::MON),
        names(pure_rust_locales::en_AU::LC_TIME::ABDAY),
    )
    .unwrap();
    let months = res.month_names();
    assert_eq!(months.len(), 12);
    assert_eq!(months[0], "January");
    assert_eq!(months[1], "February");
    assert_eq!(months[2], "March");
    assert_eq!(months[3], "April");
    assert_eq!(months[4], "May");
    assert_eq!(months[5], "June");
    assert_eq!(months[6], "July");
    assert_eq!(months[7], "August");
    assert_eq!(months[8], "September");
    assert_eq!(months[9], "October");
    assert_eq!(months[10], "November");
    assert_eq!(months[11], "December");
    let days = res.week_day_names();
    assert_eq!(days, ["Su", "Mo", "Tu", "We", "Th", "Fr", "Sa"]);
}

#[test]
fn parse_non_english_locale() {
    assert_eq!(locale_tag("hu_HU"), "hu_HU");
    let res = LocaleInfo::new(
        names(pure_rust_locales::hu_HU::LC_TIME::MON),
        names(pure_rust_locales::hu_HU::LC_TIME::ABDAY),
    )
    .unwrap();
    let months = res.month_names();
    assert_eq!(months.len(), 12);
    assert_eq!(months[0], "Január");
    assert_eq!(months[1], "Február");
    assert_eq!(months[2], "Március");
    assert_eq!(months[3], "Április");
    assert_eq!(months[4], "Május");
    assert_eq!(months[5], "Június");
    assert_eq!(months[6], "Július");
    assert_eq!(months[7], "Augusztus");
    assert_eq!(months[8], "Szeptember");
    assert_eq!(months[9], "Október");
    assert_eq!(months[10], "November");
    assert_eq!(months[11], "December");
    let days = res.week_day_names();
    assert_eq!(days, ["V ", "H ", "K ", "Sz", "Cs", "P ", "Sz"]);
}

#[test]
fn empty_weekday_names_are_filled() {
    let res = LocaleInfo::new(
        names(pure_rust_locales::POSIX::LC_TIME::MON),
        names(&["", "m", "tu", "wed", "", "f", "sat"]),
    )
    .unwrap();
    assert_eq!(
        res.week_day_names(),
        ["  ", "M ", "Tu", "We", "  ", "F ", "Sa"]
    );
}

#[test]
fn unknown_tags_fall_back() {
    assert_eq!(locale_tag("POSIX"), "POSIX");
    assert_eq!(locale_tag("pt_BR"), "pt_BR");
    assert_eq!(locale_tag("aa_ER@saaho"), "aa_ER@saaho");
    // Tags are matched letter for letter.
    assert_eq!(locale_tag("en-US"), "POSIX");
    assert_eq!(locale_tag("EN_US"), "POSIX");
    assert_eq!(locale_tag("en_US.UTF-8"), "POSIX");
    assert_eq!(choose_locale_tag("xx_XX", true), "xx_XX");
    assert_eq!(choose_locale_tag("en_US", false), "POSIX");
    assert_eq!(choose_locale_tag("", false), "POSIX");
}
