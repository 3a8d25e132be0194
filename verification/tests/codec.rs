use cdef_data_generator::date::Date;
use cdef_data_generator::generate::pnr_codec::{
    encode_person_number, generate_pnr, parse_person_id, person_id_string, Gender,
};
use cdef_data_generator::generate::recnum::contact_id_string;

#[test]
fn person_id_text_has_fixed_width_fields() {
    let date = Date::from_ymd_opt(2020, 3, 15).unwrap();
    let number = encode_person_number(date, 2, 124);
    assert_eq!(number, 1_503_202_124);
    assert_eq!(person_id_string(number), "150320-2124");
}

#[test]
fn person_id_text_pads_every_field() {
    let date = Date::from_ymd_opt(1905, 1, 2).unwrap();
    let number = encode_person_number(date, 0, 7);
    assert_eq!(person_id_string(number), "020105-0007");
    assert_eq!(parse_person_id("020105-0007"), Some(number));
}

#[test]
fn parse_rejects_other_texts() {
    assert_eq!(parse_person_id(""), None);
    assert_eq!(parse_person_id("1503202124"), None);
    assert_eq!(parse_person_id("150320_2124"), None);
    assert_eq!(parse_person_id("15032a-2124"), None);
    assert_eq!(parse_person_id("150320-21245"), None);
}

#[test]
fn generated_identifier_has_parity_of_gender() {
    let date = Date::from_ymd_opt(1980, 12, 24).unwrap();
    for _ in 0..200 {
        let woman = generate_pnr(date, Gender::Female);
        let man = generate_pnr(date, Gender::Male);
        assert_eq!(woman % 2, 0);
        assert_eq!(man % 2, 1);
        assert!(woman % 1000 < 999);
        assert!(man % 1000 < 999);
    }
}

#[test]
fn contact_id_text_has_twenty_digits() {
    assert_eq!(contact_id_string(1), "00000000000000000001");
    assert_eq!(contact_id_string(u64::MAX), "18446744073709551615");
}
