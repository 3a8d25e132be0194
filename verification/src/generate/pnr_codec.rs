use crate::date::Date;
use crate::random::random_in_range;
use crate::text::{
    chars_of, digit_char, digits_value, lemma_digits_value_of_zero_padded, lemma_zero_padded_concat,
    lemma_zero_padded_digit, lemma_zero_padded_len, lemma_zero_padded_of_digits, pow10,
    push_zero_padded, read_digits, zero_padded,
};
use vstd::prelude::*;

verus! {

/// The gender a person identifier encodes in the parity of its last digit.
#[derive(Clone, Copy, Debug, PartialEq, Eq, Structural)]
pub enum Gender {
    Male,
    Female,
}

impl Gender {
    /// The parity of the identifiers of this gender: odd for male, even for
    /// female.
    pub open spec fn parity(self) -> int {
        match self {
            Gender::Male => 1,
            Gender::Female => 0,
        }
    }

    /// The one-letter code of the gender in register columns.
    pub fn code(&self) -> (c: char)
        ensures
            c == (match *self {
                Gender::Male => 'M',
                Gender::Female => 'K',
            }),
    {
        match *self {
            Gender::Male => 'M',
            Gender::Female => 'K',
        }
    }
}

/// Person numbers are below this bound: they have ten decimal digits.
pub const PERSON_NUMBER_LIMIT: u64 = 10_000_000_000;

/// How many serials are drawn at most before the parity is forced.
pub const MAX_SERIAL_DRAWS: u32 = 128;

/// The two-digit year written in an identifier.
pub open spec fn year_of_century(year: int) -> int {
    year % 100
}

/// The least control digit an identifier of a birth year may carry.
pub open spec fn control_digit_low(year: int) -> int {
    let century = year / 100;
    if century == 18 {
        5
    } else if century == 19 {
        if year < 1937 {
            0
        } else {
            4
        }
    } else if century == 20 {
        0
    } else {
        4
    }
}

/// The bound below which the control digits of a birth year lie.
pub open spec fn control_digit_high(year: int) -> int {
    let century = year / 100;
    if century == 18 {
        8
    } else if century == 19 {
        if year < 1937 {
            4
        } else {
            10
        }
    } else if century == 20 {
        4
    } else {
        10
    }
}

/// The number that an identifier spells: day, month and two-digit year,
/// then the control digit and the three-digit serial.
pub open spec fn person_number(day: int, month: int, year: int, control: int, serial: int) -> int {
    day * 100_000_000 + month * 1_000_000 + year_of_century(year) * 10_000 + control * 1_000
        + serial
}

/// The control digit of a person number: the fourth digit from the end.
pub open spec fn control_digit_of(number: int) -> int {
    (number / 1_000) % 10
}

/// The serial of a person number: its last three digits.
pub open spec fn serial_of(number: int) -> int {
    number % 1_000
}

/// The gender that the parity of a person number encodes.
pub open spec fn gender_of_number(number: int) -> Gender {
    if number % 2 == 1 {
        Gender::Male
    } else {
        Gender::Female
    }
}

/// Whether `number` is an identifier of a person born on `birth_date` with
/// the given gender: its first six digits spell day, month and two-digit
/// year, its control digit lies in the range of the birth year, and its
/// serial is below 999 with the parity of the gender.
#[verifier::opaque]
pub open spec fn is_person_number_of(number: int, birth_date: Date, gender: Gender) -> bool {
    let year = birth_date.year() as int;
    &&& 0 <= number
    &&& number / 10_000 == birth_date.day() * 10_000 + birth_date.month() * 100
        + year_of_century(year)
    &&& control_digit_low(year) <= control_digit_of(number) < control_digit_high(year)
    &&& serial_of(number) < 999
    &&& serial_of(number) % 2 == gender.parity()
}

/// The text of an identifier: six digits for the date, a hyphen, the control
/// digit and the serial.
pub open spec fn person_id_text(number: int) -> Seq<char> {
    zero_padded((number / 10_000) as nat, 6) + seq!['-'] + zero_padded((number % 10_000) as nat, 4)
}

/// The number that an identifier's text spells: eleven characters, digits
/// around a hyphen in the seventh place. `None` for any other text.
pub open spec fn person_number_of_text(text: Seq<char>) -> Option<int> {
    if text.len() == 11 && text[6] == '-' {
        match (digits_value(text.subrange(0, 6)), digits_value(text.subrange(7, 11))) {
            (Some(date_part), Some(tail)) => Some((date_part * 10_000 + tail) as int),
            _ => None,
        }
    } else {
        None
    }
}

/// The bounds of the control digit for a birth year, the upper one excluded.
pub fn control_digit_bounds(year: i32) -> (bounds: (i32, i32))
    ensures
        bounds.0 == control_digit_low(year as int),
        bounds.1 == control_digit_high(year as int),
        0 <= bounds.0 < bounds.1 <= 10,
{
    if 1800 <= year && year <= 1899 {
        (5, 8)
    } else if 1900 <= year && year <= 1936 {
        (0, 4)
    } else if 1937 <= year && year <= 1999 {
        (4, 10)
    } else if 2000 <= year && year <= 2099 {
        (0, 4)
    } else {
        (4, 10)
    }
}

/// The number of the identifier with the given control digit and serial for
/// a person born on `birth_date`.
pub fn encode_person_number(birth_date: Date, control: u8, serial: u16) -> (number: u64)
    requires
        control <= 9,
        serial <= 999,
    ensures
        number == person_number(
            birth_date.day() as int,
            birth_date.month() as int,
            birth_date.year() as int,
            control as int,
            serial as int,
        ),
        number < PERSON_NUMBER_LIMIT,
        number / 10_000 == birth_date.day() * 10_000 + birth_date.month() * 100
            + year_of_century(birth_date.year() as int),
        control_digit_of(number as int) == control,
        serial_of(number as int) == serial,
{
    proof {
        lemma_person_number_parts(
            birth_date.day() as int,
            birth_date.month() as int,
            birth_date.year() as int,
            control as int,
            serial as int,
        );
    }
    let year: i32 = birth_date.year();
    // A whole number of centuries is added, so that the year is above
    // zero and keeps its last two digits.
    let shifted: u32 = (year + 262_200) as u32;
    let year2: u64 = (shifted % 100) as u64;
    let day: u64 = birth_date.day() as u64;
    let month: u64 = birth_date.month() as u64;
    day * 100_000_000 + month * 1_000_000 + year2 * 10_000 + (control as u64) * 1_000 + (
    serial as u64)
}

/// Whether `number` is an identifier of a person born on `birth_date` with
/// the given gender.
pub fn is_person_number(number: u64, birth_date: Date, gender: Gender) -> (fits: bool)
    ensures
        fits == is_person_number_of(number as int, birth_date, gender),
{
    proof {
        reveal(is_person_number_of);
    }
    let year: i32 = birth_date.year();
    let shifted: u32 = (year + 262_200) as u32;
    let year2: u64 = (shifted % 100) as u64;
    let date_part: u64 = birth_date.day() as u64 * 10_000 + birth_date.month() as u64 * 100
        + year2;
    let bounds = control_digit_bounds(year);
    let control: u64 = (number / 1_000) % 10;
    let serial: u64 = number % 1_000;
    let parity: u64 = match gender {
        Gender::Male => 1,
        Gender::Female => 0,
    };
    number / 10_000 == date_part && bounds.0 as u64 <= control && control < bounds.1 as u64
        && serial < 999 && serial % 2 == parity
}

/// Draws a serial below 999 with the parity of `gender`. Serials are drawn
/// until one has the parity; after `MAX_SERIAL_DRAWS` draws the parity
/// itself is taken as the serial.
fn draw_serial(gender: Gender) -> (serial: u16)
    ensures
        serial < 999,
        serial % 2 == gender.parity(),
{
    let wanted: i32 = match gender {
        Gender::Male => 1,
        Gender::Female => 0,
    };
    let mut draws: u32 = 0;
    while draws < MAX_SERIAL_DRAWS
        invariant
            wanted == gender.parity(),
        decreases MAX_SERIAL_DRAWS - draws,
    {
        let digits: i32 = random_in_range(0, 999);
        if digits % 2 == wanted {
            return digits as u16;
        }
        draws = draws + 1;
    }
    wanted as u16
}

/// A fresh identifier for a person born on `birth_date`: the control digit
/// is drawn from the range of the birth year, the serial with the parity of
/// the gender.
pub fn generate_pnr(birth_date: Date, gender: Gender) -> (number: u64)
    ensures
        is_person_number_of(number as int, birth_date, gender),
        number < PERSON_NUMBER_LIMIT,
{
    let bounds = control_digit_bounds(birth_date.year());
    let control: i32 = random_in_range(bounds.0, bounds.1);
    let serial: u16 = draw_serial(gender);
    proof {
        reveal(is_person_number_of);
    }
    encode_person_number(birth_date, control as u8, serial)
}

/// The text of the identifier with the given number.
pub fn person_id_string(number: u64) -> (text: String)
    ensures
        text@ == person_id_text(number as int),
{
    let mut text = String::new();
    push_zero_padded(&mut text, number / 10_000, 6);
    proof {
        reveal_strlit("-");
    }
    text.append("-");
    push_zero_padded(&mut text, number % 10_000, 4);
    assert(text@ =~= person_id_text(number as int));
    text
}

/// Reads an identifier's text.
pub fn parse_person_id(text: &str) -> (r: Option<u64>)
    ensures
        match r {
            Some(number) => person_number_of_text(text@) == Some(number as int),
            None => person_number_of_text(text@) is None,
        },
{
    let chars = chars_of(text);
    if chars.len() != 11 {
        return None;
    }
    if chars[6] != '-' {
        return None;
    }
    let date_part = read_digits(&chars, 0, 6, 999_999);
    let tail = read_digits(&chars, 7, 11, 9_999);
    proof {
        if digits_value(chars@.subrange(0, 6)) is Some {
            lemma_zero_padded_of_digits(chars@.subrange(0, 6));
            assert(pow10(6) == 1_000_000) by {
                reveal_with_fuel(pow10, 7);
            }
        }
        if digits_value(chars@.subrange(7, 11)) is Some {
            lemma_zero_padded_of_digits(chars@.subrange(7, 11));
            assert(pow10(4) == 10_000) by {
                reveal_with_fuel(pow10, 5);
            }
        }
    }
    match (date_part, tail) {
        (Some(hi), Some(lo)) => Some(hi * 10_000 + lo),
        _ => None,
    }
}

/// The parts of a person number put together from them can be read off it.
pub proof fn lemma_person_number_parts(day: int, month: int, year: int, control: int, serial: int)
    requires
        0 <= day,
        0 <= month,
        0 <= control <= 9,
        0 <= serial <= 999,
    ensures
        person_number(day, month, year, control, serial) / 10_000 == day * 10_000 + month * 100
            + year_of_century(year),
        control_digit_of(person_number(day, month, year, control, serial)) == control,
        serial_of(person_number(day, month, year, control, serial)) == serial,
{
    let number = person_number(day, month, year, control, serial);
    let date_part = day * 10_000 + month * 100 + year_of_century(year);
    vstd::arithmetic::div_mod::lemma_fundamental_div_mod_converse(
        number,
        10_000,
        date_part,
        control * 1_000 + serial,
    );
    vstd::arithmetic::div_mod::lemma_fundamental_div_mod_converse(
        number,
        1_000,
        date_part * 10 + control,
        serial,
    );
    vstd::arithmetic::div_mod::lemma_fundamental_div_mod_converse(
        date_part * 10 + control,
        10,
        date_part,
        control,
    );
}

/// The text of an identifier has its parts in fixed widths: day, month
/// and two-digit year in two digits each, a hyphen, the control digit, and
/// the serial in three digits.
pub proof fn lemma_person_id_text_fields(
    day: int,
    month: int,
    year: int,
    control: int,
    serial: int,
)
    requires
        0 <= day <= 99,
        0 <= month <= 99,
        0 <= control <= 9,
        0 <= serial <= 999,
    ensures
        person_id_text(person_number(day, month, year, control, serial)) == zero_padded(
            day as nat,
            2,
        ) + zero_padded(month as nat, 2) + zero_padded(year_of_century(year) as nat, 2)
            + seq!['-'] + zero_padded(control as nat, 1) + zero_padded(serial as nat, 3),
{
    let number = person_number(day, month, year, control, serial);
    let year2 = year_of_century(year);
    lemma_person_number_parts(day, month, year, control, serial);
    assert(pow10(3) == 1_000 && pow10(2) == 100) by {
        reveal_with_fuel(pow10, 4);
    }
    assert(number % 10_000 == control * 1_000 + serial) by {
        vstd::arithmetic::div_mod::lemma_fundamental_div_mod_converse(
            number,
            10_000,
            day * 10_000 + month * 100 + year2,
            control * 1_000 + serial,
        );
    }
    lemma_zero_padded_concat(control as nat, 1, serial as nat, 3);
    lemma_zero_padded_concat(day as nat, 2, month as nat, 2);
    lemma_zero_padded_concat((day * 100 + month) as nat, 4, year2 as nat, 2);
    assert(person_id_text(number) =~= zero_padded(day as nat, 2) + zero_padded(month as nat, 2)
        + zero_padded(year2 as nat, 2) + seq!['-'] + zero_padded(control as nat, 1) + zero_padded(
        serial as nat,
        3,
    ));
}

/// A person number is below the bound of ten digits.
pub proof fn lemma_person_number_bound(number: int, birth_date: Date, gender: Gender)
    requires
        birth_date.is_valid(),
        is_person_number_of(number, birth_date, gender),
    ensures
        0 <= number < PERSON_NUMBER_LIMIT,
{
    reveal(is_person_number_of);
}

/// A number has the parity of its last three digits.
pub proof fn lemma_serial_parity(number: int)
    requires
        0 <= number,
    ensures
        serial_of(number) % 2 == number % 2,
        serial_of(number) % 10 == number % 10,
{
    let serial = serial_of(number);
    let front = number / 1_000;
    vstd::arithmetic::div_mod::lemma_fundamental_div_mod_converse(
        number,
        2,
        front * 500 + serial / 2,
        serial % 2,
    );
    vstd::arithmetic::div_mod::lemma_fundamental_div_mod_converse(
        number,
        10,
        front * 100 + serial / 10,
        serial % 10,
    );
}

/// Reading the text of a person number gives the number back.
pub proof fn lemma_person_id_text_round_trip(number: int)
    requires
        0 <= number < PERSON_NUMBER_LIMIT,
    ensures
        person_id_text(number).len() == 11,
        person_number_of_text(person_id_text(number)) == Some(number),
{
    let hi = (number / 10_000) as nat;
    let lo = (number % 10_000) as nat;
    let text = person_id_text(number);
    assert(pow10(6) == 1_000_000) by {
        reveal_with_fuel(pow10, 7);
    }
    assert(pow10(4) == 10_000) by {
        reveal_with_fuel(pow10, 5);
    }
    lemma_zero_padded_len(hi, 6);
    lemma_zero_padded_len(lo, 4);
    lemma_digits_value_of_zero_padded(hi, 6);
    lemma_digits_value_of_zero_padded(lo, 4);
    assert(text.subrange(0, 6) =~= zero_padded(hi, 6));
    assert(text.subrange(7, 11) =~= zero_padded(lo, 4));
}

/// A text that spells a person number is the text of that number.
pub proof fn lemma_person_id_text_of_number(text: Seq<char>)
    requires
        person_number_of_text(text) is Some,
    ensures
        0 <= person_number_of_text(text)->0 < PERSON_NUMBER_LIMIT,
        person_id_text(person_number_of_text(text)->0) == text,
{
    let front = text.subrange(0, 6);
    let back = text.subrange(7, 11);
    assert(pow10(6) == 1_000_000) by {
        reveal_with_fuel(pow10, 7);
    }
    assert(pow10(4) == 10_000) by {
        reveal_with_fuel(pow10, 5);
    }
    lemma_zero_padded_of_digits(front);
    lemma_zero_padded_of_digits(back);
    let number = person_number_of_text(text)->0;
    assert(number / 10_000 == digits_value(front)->0);
    assert(number % 10_000 == digits_value(back)->0);
    assert(person_id_text(number) =~= text);
}

/// The last four digits of a person number, by place: the control digit,
/// then the three digits of the serial.
proof fn lemma_tail_digits(number: int)
    requires
        0 <= number,
    ensures
        ((number % 10_000) / 1_000) % 10 == control_digit_of(number),
        ((number % 10_000) / 100) % 10 == serial_of(number) / 100,
        ((number % 10_000) / 10) % 10 == (serial_of(number) / 10) % 10,
        (number % 10_000) % 10 == number % 10,
{
    let serial = serial_of(number);
    let control = control_digit_of(number);
    let front = number / 1_000;
    let tail = number % 10_000;
    assert(tail == control * 1_000 + serial) by {
        vstd::arithmetic::div_mod::lemma_fundamental_div_mod_converse(
            number,
            10_000,
            front / 10,
            control * 1_000 + serial,
        );
    }
    assert(tail / 1_000 == control) by {
        vstd::arithmetic::div_mod::lemma_fundamental_div_mod_converse(
            tail,
            1_000,
            control,
            serial,
        );
    }
    assert(tail / 100 == control * 10 + serial / 100) by {
        vstd::arithmetic::div_mod::lemma_fundamental_div_mod_converse(
            tail,
            100,
            control * 10 + serial / 100,
            serial % 100,
        );
    }
    assert((control * 10 + serial / 100) % 10 == serial / 100) by {
        vstd::arithmetic::div_mod::lemma_fundamental_div_mod_converse(
            control * 10 + serial / 100,
            10,
            control,
            serial / 100,
        );
    }
    assert(tail / 10 == control * 100 + serial / 10) by {
        vstd::arithmetic::div_mod::lemma_fundamental_div_mod_converse(
            tail,
            10,
            control * 100 + serial / 10,
            serial % 10,
        );
    }
    assert((control * 100 + serial / 10) % 10 == (serial / 10) % 10) by {
        let tens = serial / 10;
        vstd::arithmetic::div_mod::lemma_fundamental_div_mod_converse(
            control * 100 + tens,
            10,
            control * 10 + tens / 10,
            tens % 10,
        );
    }
    assert(tail % 10 == number % 10) by {
        vstd::arithmetic::div_mod::lemma_fundamental_div_mod_converse(
            number,
            10,
            (number / 10_000) * 1_000 + tail / 10,
            tail % 10,
        );
    }
}

/// The characters of an identifier's text after the hyphen: the control
/// digit and the three digits of the serial.
pub proof fn lemma_person_id_text_tail(number: int)
    requires
        0 <= number < PERSON_NUMBER_LIMIT,
    ensures
        person_id_text(number).len() == 11,
        person_id_text(number)[6] == '-',
        person_id_text(number)[7] == digit_char(control_digit_of(number)),
        person_id_text(number)[8] == digit_char(serial_of(number) / 100),
        person_id_text(number)[9] == digit_char((serial_of(number) / 10) % 10),
        person_id_text(number)[10] == digit_char(number % 10),
{
    let tail = (number % 10_000) as nat;
    let padded = zero_padded(tail, 4);
    assert(pow10(4) == 10_000 && pow10(3) == 1_000 && pow10(2) == 100 && pow10(1) == 10 && pow10(0)
        == 1) by {
        reveal_with_fuel(pow10, 5);
    }
    assert(zero_padded((number / 10_000) as nat, 6).len() == 6) by {
        assert(pow10(6) == 1_000_000) by {
            reveal_with_fuel(pow10, 7);
        }
        lemma_zero_padded_len((number / 10_000) as nat, 6);
    }
    assert(padded.len() == 4 && padded[0] == digit_char(((tail / 1_000) % 10) as int)) by {
        lemma_zero_padded_digit(tail, 4, 0);
    }
    assert(padded[1] == digit_char(((tail / 100) % 10) as int)) by {
        lemma_zero_padded_digit(tail, 4, 1);
    }
    assert(padded[2] == digit_char(((tail / 10) % 10) as int)) by {
        lemma_zero_padded_digit(tail, 4, 2);
    }
    assert(padded[3] == digit_char((tail % 10) as int)) by {
        lemma_zero_padded_digit(tail, 4, 3);
    }
    lemma_tail_digits(number);
    let text = person_id_text(number);
    assert(text.len() == 11);
    assert(text[6] == '-');
    assert(text[7] == padded[0]);
    assert(text[8] == padded[1]);
    assert(text[9] == padded[2]);
    assert(text[10] == padded[3]);
}

/// The text of a person's identifier ends in a digit that is even for a
/// woman and odd for a man, so the gender can be read off the identifier.
pub proof fn lemma_last_digit_encodes_gender(number: int, birth_date: Date, gender: Gender)
    requires
        birth_date.is_valid(),
        is_person_number_of(number, birth_date, gender),
    ensures
        person_id_text(number).len() == 11,
        person_id_text(number).last() == digit_char(number % 10),
        (number % 10) % 2 == 0 <==> gender == Gender::Female,
        (number % 10) % 2 == 1 <==> gender == Gender::Male,
        gender_of_number(number) == gender,
{
    reveal(is_person_number_of);
    lemma_person_number_bound(number, birth_date, gender);
    lemma_person_id_text_tail(number);
    lemma_serial_parity(number);
}

/// The eighth character of an identifier is its control digit, which lies
/// in the range of the century of birth: 5 to 7 for the years 1800 to 1899,
/// 0 to 3 for 1900 to 1936, 4 to 9 for 1937 to 1999, 0 to 3 for 2000 to
/// 2099, and 4 to 9 for every other year.
pub proof fn lemma_control_digit_in_range(number: int, birth_date: Date, gender: Gender)
    requires
        birth_date.is_valid(),
        is_person_number_of(number, birth_date, gender),
    ensures
        person_id_text(number)[7] == digit_char(control_digit_of(number)),
        1800 <= birth_date.year() <= 1899 ==> 5 <= control_digit_of(number) < 8,
        1900 <= birth_date.year() < 1937 ==> 0 <= control_digit_of(number) < 4,
        1937 <= birth_date.year() <= 1999 ==> 4 <= control_digit_of(number) < 10,
        2000 <= birth_date.year() <= 2099 ==> 0 <= control_digit_of(number) < 4,
        birth_date.year() < 1800 || 2099 < birth_date.year() ==> 4 <= control_digit_of(
            number,
        ) < 10,
{
    reveal(is_person_number_of);
    lemma_person_number_bound(number, birth_date, gender);
    lemma_person_id_text_tail(number);
}

} // verus!
