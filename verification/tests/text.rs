use cdef_data_generator::text::{
    chars_of, hash_text, parse_integer, push_decimal, push_digit, push_zero_padded, read_digit,
    read_digits, read_integer,
};

fn padded(n: u64, width: usize) -> String {
    let mut out = String::from(">");
    push_zero_padded(&mut out, n, width);
    out
}

#[test]
fn numbers_are_padded_to_the_width() {
    assert_eq!(padded(5, 3), ">005");
    assert_eq!(padded(0, 0), ">0");
    assert_eq!(padded(0, 1), ">0");
    assert_eq!(padded(0, 4), ">0000");
    assert_eq!(padded(1234, 2), ">1234");
    assert_eq!(padded(1234, 4), ">1234");
    assert_eq!(padded(u64::MAX, 20), ">18446744073709551615");
    assert_eq!(padded(7, 25), ">0000000000000000000000007");
    for n in [0u64, 9, 10, 99, 100, 12345] {
        for width in 0..8usize {
            assert_eq!(padded(n, width), format!(">{:0width$}", n, width = width));
        }
    }
}

#[test]
fn digits_are_appended() {
    let mut out = String::from("n=");
    for d in 0..10u8 {
        push_digit(&mut out, d);
    }
    assert_eq!(out, "n=0123456789");
}

#[test]
fn decimal_has_a_sign_only_below_zero() {
    let write = |n: i64| {
        let mut out = String::new();
        push_decimal(&mut out, n);
        out
    };
    assert_eq!(write(0), "0");
    assert_eq!(write(2020), "2020");
    assert_eq!(write(-1), "-1");
    assert_eq!(write(i64::MAX), "9223372036854775807");
    assert_eq!(write(i64::MIN + 1), "-9223372036854775807");
}

#[test]
fn only_digits_are_read_as_digits() {
    for (index, c) in "0123456789".chars().enumerate() {
        assert_eq!(read_digit(c), Some(index as u8));
    }
    for c in ['a', '-', '+', ' ', '٣', '/', ':'] {
        assert_eq!(read_digit(c), None);
    }
}

#[test]
fn digits_are_read_up_to_the_limit() {
    let chars = chars_of("007-1234x");
    assert_eq!(chars.len(), 9);
    assert_eq!(read_digits(&chars, 0, 3, 100), Some(7));
    assert_eq!(read_digits(&chars, 4, 8, 1234), Some(1234));
    assert_eq!(read_digits(&chars, 4, 8, 1233), None);
    assert_eq!(read_digits(&chars, 4, 9, 1_000_000), None);
    assert_eq!(read_digits(&chars, 0, 4, 1_000_000), None);
    assert_eq!(read_digits(&chars, 2, 2, 5), Some(0));
}

#[test]
fn whole_numbers_are_read_with_their_sign() {
    assert_eq!(parse_integer("0", -10, 10), Some(0));
    assert_eq!(parse_integer("-0", -10, 10), Some(0));
    assert_eq!(parse_integer("+7", -10, 10), Some(7));
    assert_eq!(parse_integer("-7", -10, 10), Some(-7));
    assert_eq!(parse_integer("0010", -10, 10), Some(10));
    assert_eq!(parse_integer("11", -10, 10), None);
    assert_eq!(parse_integer("-11", -10, 10), None);
    assert_eq!(parse_integer("", -10, 10), None);
    assert_eq!(parse_integer("+", -10, 10), None);
    assert_eq!(parse_integer("-", -10, 10), None);
    assert_eq!(parse_integer("--1", -10, 10), None);
    assert_eq!(parse_integer("1 ", -10, 10), None);
    assert_eq!(parse_integer(" 1", -10, 10), None);
    assert_eq!(parse_integer("1.0", -10, 10), None);
    assert_eq!(parse_integer("127", -128, 127), Some(127));
    assert_eq!(parse_integer("128", -128, 127), None);
    assert_eq!(parse_integer("-128", -128, 127), Some(-128));
    assert_eq!(
        parse_integer("-2147483648", -2_147_483_648, 2_147_483_647),
        Some(-2_147_483_648)
    );
    assert_eq!(parse_integer("99999999999999999999999999", i64::MIN / 16, i64::MAX / 16), None);
    let chars = chars_of("a-12b");
    assert_eq!(read_integer(&chars, 1, 4, -100, 100), Some(-12));
    assert_eq!(read_integer(&chars, 2, 4, -100, 100), Some(12));
    assert_eq!(read_integer(&chars, 0, 4, -100, 100), None);
}

#[test]
fn characters_are_counted_not_bytes() {
    assert_eq!(chars_of("blåbær"), vec!['b', 'l', 'å', 'b', 'æ', 'r']);
    assert_eq!(chars_of(""), Vec::<char>::new());
}

#[test]
fn texts_are_hashed_character_by_character() {
    assert_eq!(hash_text(""), 0);
    assert_eq!(hash_text("a"), 97);
    assert_eq!(hash_text("ab"), 97 * 31 + 98);
    assert_eq!(hash_text("150320-2124"), hash_text("150320-2124"));
    assert_ne!(hash_text("150320-2124"), hash_text("150320-2125"));
    let long = "9".repeat(1000);
    assert!(hash_text(&long) < 1_000_000_007);
}
