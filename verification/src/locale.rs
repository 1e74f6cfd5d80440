//! The names of months and weekdays as a calendar shows them.

use crate::text::push_blanks;
use crate::text::spec_blanks;
use crate::text::spec_lines;
use pure_rust_locales::Locale;
use vstd::prelude::*;

verus! {

/// Whether `pure-rust-locales` holds a locale with the tag `tag`.
pub uninterp spec fn spec_known_locale(tag: Seq<char>) -> bool;

/// `Locale::try_from` of `pure-rust-locales`: whether the crate's table of locales
/// holds one with exactly the tag `tag`. The table is fixed, so the answer depends
/// on the tag alone.
#[verifier::external_body]
fn known_locale(tag: &str) -> (known: bool)
    ensures
        known == spec_known_locale(tag@),
{
    Locale::try_from(tag).is_ok()
}

/// The tag of the locale whose names are shown for a wanted tag: the wanted one
/// where there is such a locale, `POSIX` otherwise.
pub open spec fn spec_locale_tag(wanted: Seq<char>) -> Seq<char> {
    if spec_known_locale(wanted) {
        wanted
    } else {
        "POSIX"@
    }
}

/// The tag of the locale to show for a wanted tag, where `known` says whether there
/// is a locale with the wanted tag.
pub fn choose_locale_tag(locale_str: &str, known: bool) -> (tag: String)
    ensures
        tag@ == if known {
            locale_str@
        } else {
            "POSIX"@
        },
{
    if known {
        locale_str.to_owned()
    } else {
        String::from_str("POSIX")
    }
}

/// The tag of the locale to show for the wanted tag `locale_str`: a tag that is
/// not known, the empty one too, falls back to `POSIX`.
pub fn locale_tag(locale_str: &str) -> (tag: String)
    ensures
        tag@ == spec_locale_tag(locale_str@),
{
    let known = known_locale(locale_str);
    choose_locale_tag(locale_str, known)
}

/// The upper-case form of a character, which may be more than one character long.
pub uninterp spec fn spec_uppercase(ch: char) -> Seq<char>;

/// `char::to_uppercase` of std: the upper-case form of `ch`, collected into a
/// string. It depends on the character alone.
#[verifier::external_body]
fn uppercase(ch: char) -> (upper: String)
    ensures
        upper@ == spec_uppercase(ch),
{
    ch.to_uppercase().collect()
}

/// `text` with `head` in place of its first character; nothing for an empty text.
pub open spec fn spec_replace_first(text: Seq<char>, head: Seq<char>) -> Seq<char> {
    if text.len() == 0 {
        Seq::empty()
    } else {
        head + text.skip(1)
    }
}

/// `text` with its first character in upper case.
pub open spec fn spec_titlecase(text: Seq<char>) -> Seq<char> {
    if text.len() == 0 {
        Seq::empty()
    } else {
        spec_replace_first(text, spec_uppercase(text[0]))
    }
}

/// A name cut or filled with blanks to exactly two characters.
pub open spec fn spec_two_columns(name: Seq<char>) -> Seq<char> {
    if name.len() >= 2 {
        name.take(2)
    } else {
        name + spec_blanks(2 - name.len())
    }
}

/// The month names of a locale as shown: each in title case.
pub open spec fn spec_month_names(months: Seq<Seq<char>>) -> Seq<Seq<char>> {
    Seq::new(months.len(), |i: int| spec_titlecase(months[i]))
}

/// The weekday names of a locale as shown: each in title case and then two
/// characters long.
pub open spec fn spec_week_day_names(days: Seq<Seq<char>>) -> Seq<Seq<char>> {
    Seq::new(days.len(), |i: int| spec_two_columns(spec_titlecase(days[i])))
}

/// `text` with `head` in place of its first character.
pub fn replace_first(text: &str, head: &str) -> (replaced: String)
    ensures
        replaced@ == spec_replace_first(text@, head@),
{
    let mut replaced = String::new();
    let len = text.unicode_len();
    if len == 0 {
        return replaced;
    }
    replaced.append(head);
    let mut i: usize = 1;
    while i < len
        invariant
            len == text@.len(),
            1 <= i <= len,
            replaced@ == head@ + text@.subrange(1, i as int),
        decreases len - i,
    {
        replaced.push(text.get_char(i));
        i += 1;
        assert(replaced@ =~= head@ + text@.subrange(1, i as int));
    }
    assert(text@.subrange(1, len as int) =~= text@.skip(1));
    replaced
}

/// `text` with its first character in upper case.
pub fn to_titlecase(text: &str) -> (title: String)
    ensures
        title@ == spec_titlecase(text@),
{
    if text.unicode_len() == 0 {
        return String::new();
    }
    let upper = uppercase(text.get_char(0));
    replace_first(text, upper.as_str())
}

/// `name` cut or filled with blanks to exactly two characters.
pub fn two_columns(name: &str) -> (short: String)
    ensures
        short@ == spec_two_columns(name@),
        short@.len() == 2,
{
    let mut short = String::new();
    let len = name.unicode_len();
    if len >= 2 {
        short.push(name.get_char(0));
        short.push(name.get_char(1));
        assert(short@ =~= name@.take(2));
    } else {
        if len == 1 {
            short.push(name.get_char(0));
        }
        assert(short@ =~= name@);
        push_blanks(&mut short, 2 - len);
    }
    short
}

/// The names that a locale gives to the twelve months and, in short, to the seven
/// days of the week from Sunday on, as the locale's own data write them.
#[derive(Debug, PartialEq)]
pub struct LocaleInfo {
    months: Vec<String>,
    abbreviated_days: Vec<String>,
}

impl LocaleInfo {
    /// Whether there are twelve months and seven weekdays.
    #[verifier::type_invariant]
    pub closed spec fn well_formed(&self) -> bool {
        self.months.len() == 12 && self.abbreviated_days.len() == 7
    }

    /// The month names as they were given.
    pub closed spec fn spec_months(&self) -> Seq<Seq<char>> {
        spec_lines(self.months@)
    }

    /// The short weekday names as they were given.
    pub closed spec fn spec_abbreviated_days(&self) -> Seq<Seq<char>> {
        spec_lines(self.abbreviated_days@)
    }

    /// The names of a locale, if there are twelve months and seven weekdays.
    pub fn new(months: Vec<String>, abbreviated_days: Vec<String>) -> (info: Option<LocaleInfo>)
        ensures
            info is Some <==> months.len() == 12 && abbreviated_days.len() == 7,
            info matches Some(names) ==> names.well_formed() && names.spec_months() == spec_lines(
                months@,
            ) && names.spec_abbreviated_days() == spec_lines(abbreviated_days@),
    {
        if months.len() == 12 && abbreviated_days.len() == 7 {
            Some(LocaleInfo { months, abbreviated_days })
        } else {
            None
        }
    }

    /// The twelve month names, each in title case.
    pub fn month_names(&self) -> (names: Vec<String>)
        ensures
            names.len() == 12,
            spec_lines(names@) == spec_month_names(self.spec_months()),
    {
        proof {
            use_type_invariant(self);
        }
        let mut names: Vec<String> = Vec::new();
        let mut i: usize = 0;
        while i < self.months.len()
            invariant
                i <= self.months.len(),
                self.months.len() == 12,
                names.len() == i,
                forall|j: int|
                    0 <= j < i ==> (#[trigger] names[j])@ == spec_titlecase(self.months[j]@),
            decreases self.months.len() - i,
        {
            names.push(to_titlecase(self.months[i].as_str()));
            i += 1;
        }
        assert(spec_lines(names@) =~= spec_month_names(self.spec_months()));
        names
    }

    /// The seven weekday names from Sunday on, each in title case and two
    /// characters long.
    pub fn week_day_names(&self) -> (names: Vec<String>)
        ensures
            names.len() == 7,
            spec_lines(names@) == spec_week_day_names(self.spec_abbreviated_days()),
            forall|i: int| 0 <= i < 7 ==> (#[trigger] names[i])@.len() == 2,
    {
        proof {
            use_type_invariant(self);
        }
        let mut names: Vec<String> = Vec::new();
        let mut i: usize = 0;
        while i < self.abbreviated_days.len()
            invariant
                i <= self.abbreviated_days.len(),
                self.abbreviated_days.len() == 7,
                names.len() == i,
                forall|j: int|
                    0 <= j < i ==> (#[trigger] names[j])@ == spec_two_columns(
                        spec_titlecase(self.abbreviated_days[j]@),
                    ) && names[j]@.len() == 2,
            decreases self.abbreviated_days.len() - i,
        {
            let title = to_titlecase(self.abbreviated_days[i].as_str());
            names.push(two_columns(title.as_str()));
            i += 1;
        }
        assert(spec_lines(names@) =~= spec_week_day_names(self.spec_abbreviated_days()));
        names
    }
}

} // verus!
