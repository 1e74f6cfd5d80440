//! Building blocks for fixed-width text: runs of blanks and decimal numbers.

use vstd::prelude::*;

verus! {

/// `String::push` of std appends one character to the end of the string and
/// leaves what was there untouched.
pub assume_specification[ String::push ](text: &mut String, ch: char)
    ensures
        final(text)@ == old(text)@.push(ch),
;

/// `count` blanks.
pub open spec fn spec_blanks(count: int) -> Seq<char> {
    Seq::new(
        if count < 0 {
            0nat
        } else {
            count as nat
        },
        |i: int| ' ',
    )
}

/// The character of the decimal digit `digit` (0 to 9).
pub open spec fn spec_digit(digit: int) -> char {
    (48 + digit) as u8 as char
}

/// The decimal digits of `number`, without leading zeros.
pub open spec fn spec_decimal(number: int) -> Seq<char>
    decreases number,
{
    if number < 10 {
        seq![spec_digit(number)]
    } else {
        spec_decimal(number / 10).push(spec_digit(number % 10))
    }
}

/// `number` in decimal, pushed to the right of a field of `width` characters by
/// blanks in front; a number with more digits than that is not cut.
pub open spec fn spec_right_justified(number: int, width: int) -> Seq<char> {
    spec_blanks(width - spec_decimal(number).len()) + spec_decimal(number)
}

/// The texts of `lines`, one by one.
pub open spec fn spec_lines(lines: Seq<String>) -> Seq<Seq<char>> {
    Seq::new(lines.len(), |i: int| lines[i]@)
}

/// Whether every character of `text` is a blank.
pub open spec fn spec_is_blank(text: Seq<char>) -> bool {
    forall|i: int| 0 <= i < text.len() ==> text[i] == ' '
}

/// A decimal number has at least one character, all of them digits, and as many as
/// its size asks for.
pub proof fn lemma_decimal_shape(number: int)
    requires
        0 <= number,
    ensures
        spec_decimal(number).len() >= 1,
        number < 10 <==> spec_decimal(number).len() == 1,
        10 <= number < 100 <==> spec_decimal(number).len() == 2,
        forall|i: int|
            0 <= i < spec_decimal(number).len() ==> '0' <= #[trigger] spec_decimal(number)[i]
                <= '9',
        spec_decimal(number).last() == spec_digit(number % 10),
    decreases number,
{
    if number >= 10 {
        lemma_decimal_shape(number / 10);
        if number >= 100 {
            lemma_decimal_shape(number / 100);
        }
    }
}

/// A number below 1000 fills a field of three characters exactly, and its last
/// character is a digit.
pub proof fn lemma_right_justified_three(number: int)
    requires
        0 <= number < 1000,
    ensures
        spec_right_justified(number, 3).len() == 3,
        '0' <= spec_right_justified(number, 3)[2] <= '9',
{
    lemma_decimal_shape(number);
    if number >= 10 {
        lemma_decimal_shape(number / 10);
    }
    if number >= 100 {
        lemma_decimal_shape(number / 100);
    }
}

/// Blanks after blanks are blanks.
pub proof fn lemma_blanks_concat(first: int, second: int)
    requires
        0 <= first,
        0 <= second,
    ensures
        spec_blanks(first) + spec_blanks(second) =~= spec_blanks(first + second),
{
}

/// Appends `count` blanks to `text`.
pub fn push_blanks(text: &mut String, count: usize)
    ensures
        final(text)@ == old(text)@ + spec_blanks(count as int),
{
    let mut done: usize = 0;
    while done < count
        invariant
            done <= count,
            text@ == old(text)@ + spec_blanks(done as int),
        decreases count - done,
    {
        text.push(' ');
        done += 1;
        assert(text@ =~= old(text)@ + spec_blanks(done as int));
    }
}

/// Appends the decimal digits of `number` to `text`.
pub fn push_decimal(text: &mut String, number: u32)
    ensures
        final(text)@ == old(text)@ + spec_decimal(number as int),
    decreases number,
{
    if number >= 10 {
        push_decimal(text, number / 10);
    }
    let digit: u8 = (number % 10) as u8;
    text.push((48u8 + digit) as char);
    assert(text@ =~= old(text)@ + spec_decimal(number as int));
}

/// Ten to the power of `exponent`.
pub open spec fn spec_power_of_ten(exponent: nat) -> int
    decreases exponent,
{
    if exponent == 0 {
        1
    } else {
        10 * spec_power_of_ten((exponent - 1) as nat)
    }
}

/// A number below the `digits`-th power of ten has at most `digits` digits.
pub proof fn lemma_decimal_len_bound(number: int, digits: nat)
    requires
        digits >= 1,
        0 <= number < spec_power_of_ten(digits),
    ensures
        1 <= spec_decimal(number).len() <= digits,
    decreases digits,
{
    if number >= 10 {
        if digits == 1 {
            assert(spec_power_of_ten(1) == 10) by {
                reveal_with_fuel(spec_power_of_ten, 2);
            }
        } else {
            lemma_decimal_len_bound(number / 10, (digits - 1) as nat);
        }
    }
}

/// The number of decimal digits of `number`.
pub fn decimal_len(number: u32) -> (len: usize)
    ensures
        len == spec_decimal(number as int).len(),
        1 <= len <= 10,
    decreases number,
{
    proof {
        assert(spec_power_of_ten(10) == 10_000_000_000) by {
            reveal_with_fuel(spec_power_of_ten, 11);
        }
        lemma_decimal_len_bound(number as int, 10);
    }
    if number >= 10 {
        1 + decimal_len(number / 10)
    } else {
        1
    }
}

/// Appends `number`, right-justified in a field of `width` characters, to `text`.
pub fn push_right_justified(text: &mut String, number: u32, width: usize)
    ensures
        final(text)@ == old(text)@ + spec_right_justified(number as int, width as int),
{
    let len = decimal_len(number);
    let fill: usize = if len < width {
        width - len
    } else {
        0
    };
    push_blanks(text, fill);
    push_decimal(text, number);
    assert(text@ =~= old(text)@ + spec_right_justified(number as int, width as int));
}

/// Whether `text` holds nothing but blanks.
pub fn is_blank(text: &str) -> (blank: bool)
    ensures
        blank == spec_is_blank(text@),
{
    let len = text.unicode_len();
    let mut i: usize = 0;
    while i < len
        invariant
            len == text@.len(),
            i <= len,
            forall|j: int| 0 <= j < i ==> text@[j] == ' ',
        decreases len - i,
    {
        if text.get_char(i) != ' ' {
            return false;
        }
        i += 1;
    }
    true
}

} // verus!
