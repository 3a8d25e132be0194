use cdef_data_generator::cli::Cli;
use cdef_data_generator::config::Config;
use cdef_data_generator::error::DataGeneratorError;

fn cli(years: &str) -> Cli {
    Cli {
        registers: vec!["bef".to_string(), "akm".to_string()],
        years: years.to_string(),
        rows: 10_000,
        threads: 4,
        output: Some("out/data".to_string()),
        input: None,
    }
}

fn problem(years: &str) -> String {
    match cli(years).parse_years() {
        Err(DataGeneratorError::Other(text)) => text,
        other => panic!("{:?}", other),
    }
}

#[test]
fn year_range_is_read_inclusive() {
    assert_eq!(cli("2000-2020").parse_years().unwrap(), (2000, 2020));
    assert_eq!(cli("2020-2020").parse_years().unwrap(), (2020, 2020));
    assert_eq!(cli("0-2147483647").parse_years().unwrap(), (0, 2147483647));
    assert_eq!(cli("+5-+10").parse_years().unwrap(), (5, 10));
    assert_eq!(cli("0007-00000000000000012").parse_years().unwrap(), (7, 12));
}

#[test]
fn year_range_needs_exactly_one_hyphen() {
    let format = "Invalid year range format. Use START-END";
    assert_eq!(problem("2020"), format);
    assert_eq!(problem(""), format);
    assert_eq!(problem("2000-2010-2020"), format);
    assert_eq!(problem("-5-10"), format);
    assert_eq!(problem("2000--2010"), format);
}

#[test]
fn year_range_names_the_part_that_is_no_year() {
    assert_eq!(problem("-2020"), "Invalid start year");
    assert_eq!(problem("abc-2020"), "Invalid start year");
    assert_eq!(problem(" 2000-2020"), "Invalid start year");
    assert_eq!(problem("+-2020"), "Invalid start year");
    assert_eq!(problem("2147483648-2147483649"), "Invalid start year");
    assert_eq!(problem("abc-def"), "Invalid start year");
    assert_eq!(problem("2020-"), "Invalid end year");
    assert_eq!(problem("2020-20x0"), "Invalid end year");
    assert_eq!(problem("2020-2147483648"), "Invalid end year");
    assert_eq!(problem("2020-99999999999999999999999"), "Invalid end year");
}

#[test]
fn year_range_must_not_run_backwards() {
    assert_eq!(
        problem("2021-2020"),
        "Start year must be less than or equal to end year"
    );
}

#[test]
fn config_copies_the_command_line() {
    let config = Config::new(&cli("1999-2003")).unwrap();
    assert_eq!(config.registers, vec!["bef".to_string(), "akm".to_string()]);
    assert_eq!(config.years, (1999, 2003));
    assert_eq!(config.rows, 10_000);
    assert_eq!(config.threads, 4);
    assert_eq!(config.output, Some("out/data".to_string()));
    assert_eq!(config.input, None);
}

#[test]
fn config_fails_on_a_bad_year_range() {
    match Config::new(&cli("2003-1999")) {
        Err(error) => assert_eq!(
            error.message(),
            "Other error: Start year must be less than or equal to end year"
        ),
        Ok(_) => panic!("a range that runs backwards was accepted"),
    }
}

#[test]
fn error_message_names_the_kind() {
    let text = || "it broke".to_string();
    assert_eq!(DataGeneratorError::Io(text()).message(), "IO error: it broke");
    assert_eq!(DataGeneratorError::Json(text()).message(), "JSON parsing error: it broke");
    assert_eq!(DataGeneratorError::Polars(text()).message(), "Polars error: it broke");
    assert_eq!(DataGeneratorError::Cli(text()).message(), "CLI argument error: it broke");
    assert_eq!(DataGeneratorError::Other(text()).message(), "Other error: it broke");
    assert_eq!(DataGeneratorError::InvalidInput(text()).message(), "Invalid input: it broke");
}
