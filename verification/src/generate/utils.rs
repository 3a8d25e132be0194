use crate::date::{Date, DateFormat, MAX_YEAR, MIN_YEAR};
use crate::random::{choose_one, random_in_range, random_ratio};
use crate::text::{decimal, push_char, push_decimal, push_zero_padded, zero_padded};
use vstd::pervasive::unreached;
use vstd::prelude::*;

verus! {

/// The text of a day chosen at random among the first 28 days of the months
/// of `year`, as year, month and day with hyphens.
pub fn generate_date_for_year(year: i32) -> (text: String)
    requires
        MIN_YEAR <= year <= MAX_YEAR,
    ensures
        exists|date: Date|
            #![trigger date.is_random_day_of(year as int)]
            date.is_random_day_of(year as int) && text@ == date.text(DateFormat::Iso),
{
    let date = Date::random_in_year(year);
    date.format(DateFormat::Iso)
}

/// Whether `c` is one of the capital letters A to Z.
pub open spec fn is_capital(c: char) -> bool {
    'A' as int <= c as int <= 'Z' as int
}

/// Whether `c` is one of the digits 0 to 9.
pub open spec fn is_digit(c: char) -> bool {
    '0' as int <= c as int <= '9' as int
}

/// The text of a diagnosis code made of a chapter letter, a number in two
/// digits, a second number and a last character: `D`, the letter and the
/// first number; then the second number and the last character, but a last
/// character `0` is left out, and with it a second number 0.
pub open spec fn diagnosis_text(letter: char, first: int, second: int, last: char) -> Seq<char> {
    let head = seq!['D', letter] + zero_padded(first as nat, 2);
    if last == '0' {
        if second == 0 {
            head
        } else {
            head + decimal(second)
        }
    } else {
        (head + decimal(second)).push(last)
    }
}

/// The diagnosis code of a chapter letter, two numbers and a last character.
pub fn compose_diagnosis(letter: char, first: u8, second: u8, last: char) -> (code: String)
    ensures
        code@ == diagnosis_text(letter, first as int, second as int, last),
{
    let mut code = String::new();
    push_char(&mut code, 'D');
    push_char(&mut code, letter);
    push_zero_padded(&mut code, first as u64, 2);
    if last == '0' {
        if second != 0 {
            push_decimal(&mut code, second as i64);
        }
    } else {
        push_decimal(&mut code, second as i64);
        push_char(&mut code, last);
    }
    assert(code@ =~= diagnosis_text(letter, first as int, second as int, last));
    code
}

/// Whether `code` is a diagnosis code that may be drawn when the keys of
/// the diagnosis mapping are `keys`: `D` before one of the keys, or a code
/// made of a capital letter, a number up to 99, a number up to 9, and a
/// capital letter or a digit.
pub open spec fn is_diagnosis(code: Seq<char>, keys: Seq<String>) -> bool {
    ||| exists|i: int| 0 <= i < keys.len() && code == seq!['D'] + (#[trigger] keys[i])@
    ||| exists|letter: char, first: int, second: int, last: char|
        is_capital(letter) && 0 <= first <= 99 && 0 <= second <= 9 && (is_capital(last) || is_digit(
            last,
        )) && code == #[trigger] diagnosis_text(letter, first, second, last)
}

/// A diagnosis code drawn at random: one time in ten a key of the diagnosis
/// mapping after `D`, else a code made of random parts, whose last
/// character is a letter three times in ten.
pub fn get_random_diagnosis(keys: &Vec<String>) -> (code: String)
    requires
        keys@.len() > 0,
    ensures
        is_diagnosis(code@, keys@),
{
    if random_ratio(1, 10) {
        let mut code = String::new();
        push_char(&mut code, 'D');
        match choose_one(keys.as_slice()) {
            Some(key) => {
                code.append(key.as_str());
                proof {
                    let i = choose|i: int| 0 <= i < keys@.len() && keys@[i] == *key;
                    assert(code@ =~= seq!['D'] + keys@[i]@);
                }
            },
            None => unreached(),
        }
        return code;
    }
    let letter: char = (65u8 + random_in_range(0, 26) as u8) as char;
    let first: u8 = random_in_range(0, 100) as u8;
    let second: u8 = random_in_range(0, 10) as u8;
    let last: char = if random_ratio(3, 10) {
        (65u8 + random_in_range(0, 26) as u8) as char
    } else {
        (48u8 + random_in_range(0, 10) as u8) as char
    };
    let code = compose_diagnosis(letter, first, second, last);
    assert(code@ == diagnosis_text(letter, first as int, second as int, last));
    code
}

} // verus!
