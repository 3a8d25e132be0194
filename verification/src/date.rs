use crate::random::random_in_range;
use crate::text::zero_padded;
use vstd::pervasive::unreached;
use vstd::prelude::*;

verus! {

/// The earliest year a calendar date can carry.
pub const MIN_YEAR: i32 = -262_143;

/// The latest year a calendar date can carry.
pub const MAX_YEAR: i32 = 262_142;

/// Leap years of the proleptic Gregorian calendar, with year 0 for 1 BCE.
pub open spec fn is_leap_year(year: int) -> bool {
    year % 4 == 0 && (year % 100 != 0 || year % 400 == 0)
}

/// The number of days of `month` in `year`; meaningful for months 1 to 12.
pub open spec fn days_in_month(year: int, month: int) -> int {
    if month == 2 {
        if is_leap_year(year) {
            29
        } else {
            28
        }
    } else if month == 4 || month == 6 || month == 9 || month == 11 {
        30
    } else {
        31
    }
}

/// Whether year, month and day name a day of the calendar that a date can
/// hold.
pub open spec fn is_calendar_day(year: int, month: int, day: int) -> bool {
    &&& MIN_YEAR <= year <= MAX_YEAR
    &&& 1 <= month <= 12
    &&& 1 <= day <= days_in_month(year, month)
}

/// `chrono::NaiveDate::from_ymd_opt`, asked only whether it accepts the
/// triple. Trusted: it accepts exactly the days that exist in the proleptic
/// Gregorian calendar with a year between `MIN_YEAR` and `MAX_YEAR`.
#[verifier::external_body]
fn calendar_accepts(year: i32, month: u32, day: u32) -> (accepted: bool)
    ensures
        accepted == is_calendar_day(year as int, month as int, day as int),
{
    chrono::NaiveDate::from_ymd_opt(year, month, day).is_some()
}

/// The text of a year as dates are written: four digits for the years 0 to
/// 9999; beyond them a sign, then at least four digits.
pub open spec fn year_text(year: int) -> Seq<char> {
    if 0 <= year <= 9999 {
        zero_padded(year as nat, 4)
    } else if year > 9999 {
        seq!['+'] + zero_padded(year as nat, 4)
    } else {
        seq!['-'] + zero_padded((-year) as nat, 4)
    }
}

/// The English three-letter name of a month; meaningful for months 1 to 12.
pub open spec fn month_abbreviation(month: int) -> Seq<char> {
    if month == 1 {
        "Jan"@
    } else if month == 2 {
        "Feb"@
    } else if month == 3 {
        "Mar"@
    } else if month == 4 {
        "Apr"@
    } else if month == 5 {
        "May"@
    } else if month == 6 {
        "Jun"@
    } else if month == 7 {
        "Jul"@
    } else if month == 8 {
        "Aug"@
    } else if month == 9 {
        "Sep"@
    } else if month == 10 {
        "Oct"@
    } else if month == 11 {
        "Nov"@
    } else {
        "Dec"@
    }
}

/// A date as year, month and day with hyphens between them, `2020-03-15`.
pub open spec fn iso_date_text(year: int, month: int, day: int) -> Seq<char> {
    year_text(year) + seq!['-'] + zero_padded(month as nat, 2) + seq!['-'] + zero_padded(
        day as nat,
        2,
    )
}

/// A date as year, month and day without separators, `20200315`.
pub open spec fn compact_date_text(year: int, month: int, day: int) -> Seq<char> {
    year_text(year) + zero_padded(month as nat, 2) + zero_padded(day as nat, 2)
}

/// A date as day, name of the month and year, `15Mar2020`.
pub open spec fn named_month_date_text(year: int, month: int, day: int) -> Seq<char> {
    zero_padded(day as nat, 2) + month_abbreviation(month) + year_text(year)
}

/// A time of day as hour, minute and second with colons, `07:05:59`.
pub open spec fn time_text(hour: int, minute: int, second: int) -> Seq<char> {
    zero_padded(hour as nat, 2) + seq![':'] + zero_padded(minute as nat, 2) + seq![':']
        + zero_padded(second as nat, 2)
}

/// `chrono::NaiveDate::format` for the day that `chrono::NaiveDate::from_ymd_opt`
/// makes of year, month and day, with one of the three patterns that dates
/// are written in. Trusted: `%Y` writes the year as `year_text` says, `%m`
/// and `%d` write month and day in two digits, and `%b` writes the English
/// three-letter name of the month.
#[verifier::external_body]
fn format_calendar_day(year: i32, month: u32, day: u32, pattern: &str) -> (text: String)
    requires
        is_calendar_day(year as int, month as int, day as int),
        pattern@ == "%Y-%m-%d"@ || pattern@ == "%Y%m%d"@ || pattern@ == "%d%b%Y"@,
    ensures
        pattern@ == "%Y-%m-%d"@ ==> text@ == iso_date_text(year as int, month as int, day as int),
        pattern@ == "%Y%m%d"@ ==> text@ == compact_date_text(
            year as int,
            month as int,
            day as int,
        ),
        pattern@ == "%d%b%Y"@ ==> text@ == named_month_date_text(
            year as int,
            month as int,
            day as int,
        ),
{
    chrono::NaiveDate::from_ymd_opt(year, month, day).unwrap().format(pattern).to_string()
}

/// `chrono::NaiveTime::format` with the pattern `%H:%M:%S`, for a time that
/// `chrono::NaiveTime::from_hms_opt` accepts. Trusted: hour, minute and
/// second are written in two digits each, with colons between them.
#[verifier::external_body]
fn format_time_of_day(hour: u32, minute: u32, second: u32) -> (text: String)
    requires
        hour < 24,
        minute < 60,
        second < 60,
    ensures
        text@ == time_text(hour as int, minute as int, second as int),
{
    chrono::NaiveTime::from_hms_opt(hour, minute, second).unwrap().format("%H:%M:%S").to_string()
}

/// The ways a date is written.
#[derive(Clone, Copy, Debug, PartialEq, Eq, Structural)]
pub enum DateFormat {
    /// Year, month and day with hyphens, `2020-03-15`.
    Iso,
    /// Year, month and day without separators, `20200315`.
    Compact,
    /// Day, name of the month and year, `15Mar2020`.
    NamedMonth,
}

/// The time of day written as `HH:MM:SS`.
pub fn format_time(hour: u32, minute: u32, second: u32) -> (text: String)
    requires
        hour < 24,
        minute < 60,
        second < 60,
    ensures
        text@ == time_text(hour as int, minute as int, second as int),
{
    format_time_of_day(hour, minute, second)
}

/// A calendar date. Every value is a day that exists.
#[derive(Clone, Copy, Debug)]
pub struct Date {
    year: i32,
    month: u32,
    day: u32,
}

impl Date {
    /// Holds of every date: its year, month and day name a day that exists.
    #[verifier::type_invariant]
    pub open spec fn is_valid(self) -> bool {
        is_calendar_day(self.year() as int, self.month() as int, self.day() as int)
    }

    /// The year, as specifications see it; written `year()` there.
    pub closed spec fn spec_year(&self) -> i32 {
        self.year
    }

    /// The month, as specifications see it; written `month()` there.
    pub closed spec fn spec_month(&self) -> u32 {
        self.month
    }

    /// The day of the month, as specifications see it; written `day()`
    /// there.
    pub closed spec fn spec_day(&self) -> u32 {
        self.day
    }

    /// The date of the given year, month and day, or `None` if there is no
    /// such day.
    pub fn from_ymd_opt(year: i32, month: u32, day: u32) -> (r: Option<Date>)
        ensures
            r is Some <==> is_calendar_day(year as int, month as int, day as int),
            r matches Some(d) ==> d.year() == year && d.month() == month && d.day() == day,
    {
        if calendar_accepts(year, month, day) {
            Some(Date { year, month, day })
        } else {
            None
        }
    }

    /// A day chosen at random among the first 28 days of the months of
    /// `year`.
    pub fn random_in_year(year: i32) -> (date: Date)
        requires
            MIN_YEAR <= year <= MAX_YEAR,
        ensures
            date.is_random_day_of(year as int),
    {
        let month: i32 = random_in_range(1, 13);
        let day: i32 = random_in_range(1, 29);
        match Date::from_ymd_opt(year, month as u32, day as u32) {
            Some(date) => date,
            None => unreached(),
        }
    }

    /// What a day drawn by `random_in_year` is like: a day of `year`, among
    /// the first 28 of its month.
    pub open spec fn is_random_day_of(self, year: int) -> bool {
        &&& self.is_valid()
        &&& self.year() == year
        &&& self.day() <= 28
    }

    /// The text of the date in the given format.
    pub open spec fn text(self, format: DateFormat) -> Seq<char> {
        match format {
            DateFormat::Iso => iso_date_text(
                self.year() as int,
                self.month() as int,
                self.day() as int,
            ),
            DateFormat::Compact => compact_date_text(
                self.year() as int,
                self.month() as int,
                self.day() as int,
            ),
            DateFormat::NamedMonth => named_month_date_text(
                self.year() as int,
                self.month() as int,
                self.day() as int,
            ),
        }
    }

    /// Writes the date in the given format.
    pub fn format(&self, format: DateFormat) -> (text: String)
        ensures
            text@ == self.text(format),
    {
        proof {
            use_type_invariant(self);
        }
        match format {
            DateFormat::Iso => format_calendar_day(self.year, self.month, self.day, "%Y-%m-%d"),
            DateFormat::Compact => format_calendar_day(self.year, self.month, self.day, "%Y%m%d"),
            DateFormat::NamedMonth => format_calendar_day(
                self.year,
                self.month,
                self.day,
                "%d%b%Y",
            ),
        }
    }

    /// The year.
    #[verifier::when_used_as_spec(spec_year)]
    pub fn year(&self) -> (y: i32)
        ensures
            y == self.year(),
            MIN_YEAR <= y <= MAX_YEAR,
    {
        proof {
            use_type_invariant(self);
        }
        self.year
    }

    /// The month, from 1.
    #[verifier::when_used_as_spec(spec_month)]
    pub fn month(&self) -> (m: u32)
        ensures
            m == self.month(),
            1 <= m <= 12,
    {
        proof {
            use_type_invariant(self);
        }
        self.month
    }

    /// The day of the month, from 1.
    #[verifier::when_used_as_spec(spec_day)]
    pub fn day(&self) -> (d: u32)
        ensures
            d == self.day(),
            1 <= d <= days_in_month(self.year() as int, self.month() as int),
    {
        proof {
            use_type_invariant(self);
        }
        self.day
    }
}

} // verus!
