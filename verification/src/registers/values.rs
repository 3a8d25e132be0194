use crate::date::{format_time, time_text, Date, DateFormat, MAX_YEAR, MIN_YEAR};
use crate::random::{choose_one, random_in_range, random_ratio};
use crate::registers::rule::{same_text, Choices};
use crate::text::{chars_of, digit_value, push_char, push_zero_padded, read_digit, zero_padded};
use vstd::pervasive::unreached;
use vstd::prelude::*;

verus! {

/// Whether `text` is a number from `low` up to but not including `high`,
/// written with zeros before it to at least `width` digits.
pub open spec fn is_padded_number(text: Seq<char>, low: int, high: int, width: nat) -> bool {
    exists|value: int| low <= value < high && text == #[trigger] zero_padded(value as nat, width)
}

/// A number drawn from `low` up to but not including `high`, written with
/// zeros before it to at least `width` digits.
pub fn random_padded_number(low: u32, high: u32, width: u8) -> (text: String)
    requires
        low < high <= i32::MAX,
    ensures
        is_padded_number(text@, low as int, high as int, width as nat),
{
    let value: i32 = random_in_range(low as i32, high as i32);
    let mut text = String::new();
    push_zero_padded(&mut text, value as u64, width as usize);
    assert(text@ =~= zero_padded(value as nat, width as nat));
    text
}

/// One of the texts of a list, chosen at random.
pub fn random_choice(choices: Choices) -> (text: String)
    ensures
        choices.texts().contains(text@),
{
    let list = choices.list();
    let ghost texts = list@.map_values(|text: &'static str| text@);
    assert(texts.len() > 0);
    match choose_one(list.as_slice()) {
        Some(chosen) => {
            proof {
                let i = choose|i: int| 0 <= i < list@.len() && list@[i] == *chosen;
                assert(texts[i] == chosen@);
            }
            String::from_str(*chosen)
        },
        None => unreached(),
    }
}

/// `yes` with a chance of `numerator` in `denominator`, else `no`.
pub fn random_flag(numerator: u32, denominator: u32, yes: char, no: char) -> (text: String)
    requires
        0 < denominator,
        numerator <= denominator,
    ensures
        text@ == seq![yes] || text@ == seq![no],
        numerator == 0 ==> text@ == seq![no],
        numerator == denominator ==> text@ == seq![yes],
{
    let mut text = String::new();
    if random_ratio(numerator, denominator) {
        push_char(&mut text, yes);
    } else {
        push_char(&mut text, no);
    }
    assert(text@ =~= seq![yes] || text@ =~= seq![no]);
    text
}

/// One of the codes, chosen at random.
pub fn random_code(codes: &Vec<i32>) -> (code: i32)
    requires
        codes@.len() > 0,
    ensures
        codes@.contains(code),
{
    match choose_one(codes.as_slice()) {
        Some(code) => *code,
        None => unreached(),
    }
}

/// Whether `text` is a day, written in `format`, among the first 28 days of
/// a month of a year from `first_year` up to but not including `end_year`.
pub open spec fn is_date_between(
    text: Seq<char>,
    first_year: int,
    end_year: int,
    format: DateFormat,
) -> bool {
    exists|date: Date|
        #![trigger date.text(format)]
        first_year <= date.year() < end_year && date.is_random_day_of(date.year() as int)
            && text == date.text(format)
}

/// A day chosen at random among the first 28 days of the months of the
/// years from `first_year` up to but not including `end_year`, written in
/// `format`.
pub fn random_date_between(first_year: i32, end_year: i32, format: DateFormat) -> (text: String)
    requires
        MIN_YEAR <= first_year < end_year <= MAX_YEAR + 1,
    ensures
        is_date_between(text@, first_year as int, end_year as int, format),
{
    let year: i32 = random_in_range(first_year, end_year);
    let date = Date::random_in_year(year);
    date.format(format)
}

/// Whether `text` is a time of day written as `HH:MM:SS`.
pub open spec fn is_time_of_day(text: Seq<char>) -> bool {
    exists|hour: int, minute: int, second: int|
        0 <= hour < 24 && 0 <= minute < 60 && 0 <= second < 60 && text == #[trigger] time_text(
            hour,
            minute,
            second,
        )
}

/// A time of day chosen at random, written as `HH:MM:SS`.
pub fn random_time() -> (text: String)
    ensures
        is_time_of_day(text@),
{
    let hour: i32 = random_in_range(0, 24);
    let minute: i32 = random_in_range(0, 60);
    let second: i32 = random_in_range(0, 60);
    format_time(hour as u32, minute as u32, second as u32)
}

/// The code of the gender that the last digit of an identifier encodes:
/// `K` for an even digit, `M` for an odd one.
pub open spec fn gender_code_of(pnr: Seq<char>) -> char {
    if digit_value(pnr.last())->0 % 2 == 0 {
        'K'
    } else {
        'M'
    }
}

/// Reads the gender off an identifier, which must end in a digit.
pub fn gender_code(pnr: &str) -> (code: char)
    requires
        pnr@.len() > 0,
        digit_value(pnr@.last()) is Some,
    ensures
        code == gender_code_of(pnr@),
{
    let chars = chars_of(pnr);
    match read_digit(chars[chars.len() - 1]) {
        Some(digit) => if digit % 2 == 0 {
            'K'
        } else {
            'M'
        },
        None => unreached(),
    }
}

/// The codes of civil status that a person of the given age may have:
/// unmarried below 18, unmarried or married from 18 to 24, and any of
/// unmarried, married, divorced and widowed at other ages.
pub open spec fn civil_status_codes(age: int) -> Seq<Seq<char>> {
    if 0 <= age <= 17 {
        seq!["U"@]
    } else if 18 <= age <= 24 {
        seq!["U"@, "G"@]
    } else {
        seq!["U"@, "G"@, "F"@, "E"@]
    }
}

/// A code of civil status for a person of the given age, drawn at random:
/// from 18 to 24 unmarried eight times in ten.
pub fn random_civil_status(age: i32) -> (code: &'static str)
    ensures
        civil_status_codes(age as int).contains(code@),
{
    if 0 <= age && age <= 17 {
        assert(civil_status_codes(age as int)[0] == "U"@);
        "U"
    } else if 18 <= age && age <= 24 {
        if random_ratio(8, 10) {
            assert(civil_status_codes(age as int)[0] == "U"@);
            "U"
        } else {
            assert(civil_status_codes(age as int)[1] == "G"@);
            "G"
        }
    } else {
        let list: Vec<&'static str> = vec!["U", "G", "F", "E"];
        let ghost texts = list@.map_values(|text: &'static str| text@);
        assert(texts =~= civil_status_codes(age as int));
        match choose_one(list.as_slice()) {
            Some(chosen) => {
                proof {
                    let i = choose|i: int| 0 <= i < list@.len() && list@[i] == *chosen;
                    assert(texts[i] == chosen@);
                }
                *chosen
            },
            None => unreached(),
        }
    }
}

/// The label of a code in a mapping of codes and labels: that of the first
/// entry with the code, and the code itself if there is none.
pub open spec fn label_of(entries: Seq<(String, String)>, code: Seq<char>) -> Seq<char>
    decreases entries.len(),
{
    if entries.len() == 0 {
        code
    } else if entries[0].0@ == code {
        entries[0].1@
    } else {
        label_of(entries.skip(1), code)
    }
}

/// The label of `code` in a mapping of codes and labels.
pub fn label_for(entries: &Vec<(String, String)>, code: &str) -> (label: String)
    ensures
        label@ == label_of(entries@, code@),
{
    let mut at: usize = 0;
    assert(entries@.skip(0) =~= entries@);
    while at < entries.len()
        invariant
            at <= entries@.len(),
            label_of(entries@, code@) == label_of(entries@.skip(at as int), code@),
        decreases entries@.len() - at,
    {
        assert(entries@.skip(at as int)[0] == entries@[at as int]);
        assert(entries@.skip(at as int).skip(1) =~= entries@.skip(at + 1));
        if same_text(entries[at].0.as_str(), code) {
            return entries[at].1.clone();
        }
        at = at + 1;
    }
    String::from_str(code)
}

/// The chance in tenths that a person of the given age has a spouse: none
/// below 18, one from 18 to 25, five from 26 to 35, seven from 36 to 60,
/// and six at other ages.
pub open spec fn spouse_tenths(age: int) -> int {
    if 0 <= age <= 17 {
        0
    } else if 18 <= age <= 25 {
        1
    } else if 26 <= age <= 35 {
        5
    } else if 36 <= age <= 60 {
        7
    } else {
        6
    }
}

/// The chance in tenths that a person of the given age has a spouse.
pub fn spouse_chance(age: i32) -> (tenths: u32)
    ensures
        tenths == spouse_tenths(age as int),
{
    if 0 <= age && age <= 17 {
        0
    } else if 18 <= age && age <= 25 {
        1
    } else if 26 <= age && age <= 35 {
        5
    } else if 36 <= age && age <= 60 {
        7
    } else {
        6
    }
}

} // verus!
