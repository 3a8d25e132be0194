use cdef_data_generator::date::{format_time, Date, DateFormat, MAX_YEAR, MIN_YEAR};
use cdef_data_generator::generate::utils::{
    compose_diagnosis, generate_date_for_year, get_random_diagnosis,
};

#[test]
fn only_days_that_exist_are_dates() {
    assert!(Date::from_ymd_opt(2020, 2, 29).is_some());
    assert!(Date::from_ymd_opt(2021, 2, 29).is_none());
    assert!(Date::from_ymd_opt(1900, 2, 29).is_none());
    assert!(Date::from_ymd_opt(2000, 2, 29).is_some());
    assert!(Date::from_ymd_opt(-4, 2, 29).is_some());
    assert!(Date::from_ymd_opt(2023, 4, 31).is_none());
    assert!(Date::from_ymd_opt(2023, 4, 30).is_some());
    assert!(Date::from_ymd_opt(2023, 12, 31).is_some());
    assert!(Date::from_ymd_opt(2023, 13, 1).is_none());
    assert!(Date::from_ymd_opt(2023, 0, 1).is_none());
    assert!(Date::from_ymd_opt(2023, 1, 0).is_none());
    assert!(Date::from_ymd_opt(2023, 1, 32).is_none());
}

#[test]
fn years_of_dates_are_bounded() {
    assert_eq!(MIN_YEAR, -262_143);
    assert_eq!(MAX_YEAR, 262_142);
    assert!(Date::from_ymd_opt(MIN_YEAR, 1, 1).is_some());
    assert!(Date::from_ymd_opt(MIN_YEAR - 1, 12, 31).is_none());
    assert!(Date::from_ymd_opt(MAX_YEAR, 12, 31).is_some());
    assert!(Date::from_ymd_opt(MAX_YEAR + 1, 1, 1).is_none());
    assert!(Date::from_ymd_opt(i32::MAX, 1, 1).is_none());
    assert!(Date::from_ymd_opt(i32::MIN, 1, 1).is_none());
}

#[test]
fn date_keeps_year_month_and_day() {
    let date = Date::from_ymd_opt(1987, 6, 5).unwrap();
    assert_eq!((date.year(), date.month(), date.day()), (1987, 6, 5));
}

#[test]
fn dates_are_written_in_three_ways() {
    let date = Date::from_ymd_opt(2020, 3, 5).unwrap();
    assert_eq!(date.format(DateFormat::Iso), "2020-03-05");
    assert_eq!(date.format(DateFormat::Compact), "20200305");
    assert_eq!(date.format(DateFormat::NamedMonth), "05Mar2020");
    let names = [
        "Jan", "Feb", "Mar", "Apr", "May", "Jun", "Jul", "Aug", "Sep", "Oct", "Nov", "Dec",
    ];
    for (index, name) in names.iter().enumerate() {
        let date = Date::from_ymd_opt(1999, index as u32 + 1, 28).unwrap();
        assert_eq!(date.format(DateFormat::NamedMonth), format!("28{}1999", name));
    }
}

#[test]
fn years_are_written_in_four_digits_or_with_a_sign() {
    let write = |year: i32| Date::from_ymd_opt(year, 12, 1).unwrap().format(DateFormat::Iso);
    assert_eq!(write(0), "0000-12-01");
    assert_eq!(write(7), "0007-12-01");
    assert_eq!(write(999), "0999-12-01");
    assert_eq!(write(1000), "1000-12-01");
    assert_eq!(write(9999), "9999-12-01");
    assert_eq!(write(10_000), "+10000-12-01");
    assert_eq!(write(262_142), "+262142-12-01");
    assert_eq!(write(-1), "-0001-12-01");
    assert_eq!(write(-262_143), "-262143-12-01");
}

#[test]
fn time_is_written_in_two_digits_each() {
    assert_eq!(format_time(0, 0, 0), "00:00:00");
    assert_eq!(format_time(7, 5, 59), "07:05:59");
    assert_eq!(format_time(23, 59, 59), "23:59:59");
}

#[test]
fn random_day_is_among_the_first_28_of_a_month() {
    for year in [MIN_YEAR, -1, 0, 1900, 2020, 2021, MAX_YEAR] {
        for _ in 0..200 {
            let date = Date::random_in_year(year);
            assert_eq!(date.year(), year);
            assert!((1..=12).contains(&date.month()));
            assert!((1..=28).contains(&date.day()));
        }
    }
}

#[test]
fn random_days_spread_over_the_year() {
    let mut days = [false; 29];
    let mut months = [false; 13];
    for _ in 0..5000 {
        let date = Date::random_in_year(2001);
        days[date.day() as usize] = true;
        months[date.month() as usize] = true;
    }
    assert!(days[1..=28].iter().all(|seen| *seen));
    assert!(months[1..=12].iter().all(|seen| *seen));
    assert!(!days[0] && !months[0]);
}

#[test]
fn date_for_a_year_is_written_with_hyphens() {
    for _ in 0..200 {
        let text = generate_date_for_year(2015);
        assert_eq!(text.len(), 10);
        assert_eq!(&text[0..5], "2015-");
        let month: u32 = text[5..7].parse().unwrap();
        let day: u32 = text[8..10].parse().unwrap();
        assert_eq!(&text[7..8], "-");
        assert!((1..=12).contains(&month));
        assert!((1..=28).contains(&day));
    }
}

#[test]
fn diagnosis_code_leaves_out_trailing_zeros() {
    assert_eq!(compose_diagnosis('A', 5, 0, '0'), "DA05");
    assert_eq!(compose_diagnosis('A', 5, 3, '0'), "DA053");
    assert_eq!(compose_diagnosis('A', 5, 0, '7'), "DA0507");
    assert_eq!(compose_diagnosis('Z', 99, 9, 'X'), "DZ999X");
    assert_eq!(compose_diagnosis('K', 0, 0, 'A'), "DK000A");
    assert_eq!(compose_diagnosis('K', 0, 1, '1'), "DK0011");
}

#[test]
fn random_diagnosis_is_a_key_or_a_code() {
    let keys = vec!["I21".to_string(), "E10".to_string()];
    let mut from_keys = 0;
    for _ in 0..2000 {
        let code = get_random_diagnosis(&keys);
        assert!(code.starts_with('D'));
        if code == "DI21" || code == "DE10" {
            from_keys += 1;
            continue;
        }
        let chars: Vec<char> = code.chars().collect();
        assert!(chars.len() >= 4 && chars.len() <= 6, "{}", code);
        assert!(chars[1].is_ascii_uppercase());
        assert!(chars[2].is_ascii_digit() && chars[3].is_ascii_digit());
        if chars.len() >= 5 {
            assert!(chars[4].is_ascii_digit());
        }
        if chars.len() == 6 {
            assert!(chars[5].is_ascii_uppercase() || chars[5].is_ascii_digit());
            assert_ne!(chars[5], '0');
        }
        if chars.len() == 5 {
            assert_ne!(chars[4], '0');
        }
    }
    assert!(from_keys > 100 && from_keys < 400, "{}", from_keys);
}
