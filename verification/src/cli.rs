use crate::error::DataGeneratorError;
use crate::text::{chars_of, integer_of_text, read_integer};
use vstd::prelude::*;

verus! {

/// What was asked for on the command line.
pub struct Cli {
    /// The registers to generate data for.
    pub registers: Vec<String>,
    /// The range of years to generate data for, as `START-END`.
    pub years: String,
    /// The number of rows to generate per year.
    pub rows: usize,
    /// The number of threads to use.
    pub threads: usize,
    /// The path to write to.
    pub output: Option<String>,
    /// The path to read from.
    pub input: Option<String>,
}

/// What is wrong with the text of a range of years.
pub enum YearRangeProblem {
    /// The text is not two parts around one hyphen.
    Format,
    /// The part before the hyphen is no year.
    StartYear,
    /// The part after the hyphen is no year.
    EndYear,
    /// The first year is after the second.
    Order,
}

impl YearRangeProblem {
    /// The description of the problem.
    pub open spec fn description(self) -> Seq<char> {
        match self {
            YearRangeProblem::Format => "Invalid year range format. Use START-END"@,
            YearRangeProblem::StartYear => "Invalid start year"@,
            YearRangeProblem::EndYear => "Invalid end year"@,
            YearRangeProblem::Order => "Start year must be less than or equal to end year"@,
        }
    }
}

/// The year that one part of a range spells: a whole number that fits
/// `i32`. A part has no hyphen, so no year below zero can be spelled.
pub open spec fn year_of_text(part: Seq<char>) -> Option<int> {
    integer_of_text(part, i32::MIN as int, i32::MAX as int)
}

/// Whether `text` has its only hyphen at `at`.
pub open spec fn has_only_hyphen_at(text: Seq<char>, at: int) -> bool {
    &&& 0 <= at < text.len()
    &&& text[at] == '-'
    &&& forall|i: int| 0 <= i < text.len() && i != at ==> text[i] != '-'
}

/// The range of years that `text` spells, or what is wrong with it. The
/// text is `START-END` with exactly one hyphen; both parts are years, and
/// the first is not after the second.
pub open spec fn year_range_of(text: Seq<char>) -> Result<(int, int), YearRangeProblem> {
    if exists|at: int| has_only_hyphen_at(text, at) {
        let at = choose|at: int| has_only_hyphen_at(text, at);
        match year_of_text(text.take(at)) {
            None => Err(YearRangeProblem::StartYear),
            Some(start) => match year_of_text(text.skip(at + 1)) {
                None => Err(YearRangeProblem::EndYear),
                Some(end) => if start > end {
                    Err(YearRangeProblem::Order)
                } else {
                    Ok((start, end))
                },
            },
        }
    } else {
        Err(YearRangeProblem::Format)
    }
}

/// Reads the characters from `start` up to `end` as a year.
fn read_year(chars: &Vec<char>, start: usize, end: usize) -> (year: Option<i32>)
    requires
        start <= end <= chars@.len(),
    ensures
        match year {
            Some(y) => year_of_text(chars@.subrange(start as int, end as int)) == Some(y as int),
            None => year_of_text(chars@.subrange(start as int, end as int)) is None,
        },
{
    match read_integer(chars, start, end, -2_147_483_648, 2_147_483_647) {
        Some(value) => Some(value as i32),
        None => None,
    }
}

impl Cli {
    /// The first and the last year of the range that `years` spells.
    pub fn parse_years(&self) -> (range: Result<(i32, i32), DataGeneratorError>)
        ensures
            match year_range_of(self.years@) {
                Ok(years) => range matches Ok(found) && found.0 == years.0 && found.1 == years.1,
                Err(problem) => range matches Err(DataGeneratorError::Other(text)) && text@
                    == problem.description(),
            },
    {
        let chars = chars_of(self.years.as_str());
        let mut at: usize = 0;
        while at < chars.len() && chars[at] != '-'
            invariant
                at <= chars@.len(),
                forall|i: int| 0 <= i < at ==> chars@[i] != '-',
            decreases chars@.len() - at,
        {
            at = at + 1;
        }
        if at == chars.len() {
            assert(!exists|k: int| has_only_hyphen_at(chars@, k));
            return Err(
                DataGeneratorError::Other(
                    String::from_str("Invalid year range format. Use START-END"),
                ),
            );
        }
        let mut after: usize = at + 1;
        while after < chars.len() && chars[after] != '-'
            invariant
                at < after <= chars@.len(),
                forall|i: int| at < i < after ==> chars@[i] != '-',
            decreases chars@.len() - after,
        {
            after = after + 1;
        }
        if after < chars.len() {
            assert forall|k: int| !has_only_hyphen_at(chars@, k) by {
                if has_only_hyphen_at(chars@, k) {
                    assert(chars@[at as int] == '-');
                    assert(chars@[after as int] == '-');
                }
            }
            return Err(
                DataGeneratorError::Other(
                    String::from_str("Invalid year range format. Use START-END"),
                ),
            );
        }
        proof {
            assert(has_only_hyphen_at(chars@, at as int));
            let chosen = choose|k: int| has_only_hyphen_at(chars@, k);
            assert(chosen == at);
            assert(chars@.take(at as int) =~= chars@.subrange(0, at as int));
            assert(chars@.skip(at + 1) =~= chars@.subrange(at + 1, chars@.len() as int));
        }
        let start_year = match read_year(&chars, 0, at) {
            Some(year) => year,
            None => {
                return Err(DataGeneratorError::Other(String::from_str("Invalid start year")));
            },
        };
        let end_year = match read_year(&chars, at + 1, chars.len()) {
            Some(year) => year,
            None => {
                return Err(DataGeneratorError::Other(String::from_str("Invalid end year")));
            },
        };
        if start_year > end_year {
            return Err(
                DataGeneratorError::Other(
                    String::from_str("Start year must be less than or equal to end year"),
                ),
            );
        }
        Ok((start_year, end_year))
    }
}

} // verus!
