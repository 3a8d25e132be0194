use crate::cli::{year_range_of, Cli};
use crate::error::DataGeneratorError;
use vstd::prelude::*;

verus! {

/// The settings of a run.
pub struct Config {
    pub registers: Vec<String>,
    /// The first and the last year to generate data for.
    pub years: (i32, i32),
    pub rows: usize,
    pub threads: usize,
    pub output: Option<String>,
    pub input: Option<String>,
}

/// The texts of a list of strings.
pub open spec fn texts_of(list: Seq<String>) -> Seq<Seq<char>> {
    list.map_values(|s: String| s@)
}

/// The text of a string that may be absent.
pub open spec fn text_of(s: Option<String>) -> Option<Seq<char>> {
    match s {
        Some(s) => Some(s@),
        None => None,
    }
}

fn copy_strings(list: &Vec<String>) -> (copy: Vec<String>)
    ensures
        texts_of(copy@) == texts_of(list@),
{
    let mut copy: Vec<String> = Vec::new();
    let mut at: usize = 0;
    while at < list.len()
        invariant
            at <= list@.len(),
            copy@.len() == at,
            forall|i: int| 0 <= i < at ==> (#[trigger] copy@[i])@ == list@[i]@,
        decreases list@.len() - at,
    {
        copy.push(list[at].clone());
        at = at + 1;
    }
    assert(texts_of(copy@) =~= texts_of(list@));
    copy
}

fn copy_string(s: &Option<String>) -> (copy: Option<String>)
    ensures
        text_of(copy) == text_of(*s),
{
    match s {
        Some(s) => Some(s.clone()),
        None => None,
    }
}

impl Config {
    /// The settings that the command line asks for. Fails where the range
    /// of years is not understood.
    pub fn new(cli: &Cli) -> (made: Result<Config, DataGeneratorError>)
        ensures
            match year_range_of(cli.years@) {
                Ok(years) => made matches Ok(config) && {
                    &&& config.years.0 == years.0
                    &&& config.years.1 == years.1
                    &&& texts_of(config.registers@) == texts_of(cli.registers@)
                    &&& config.rows == cli.rows
                    &&& config.threads == cli.threads
                    &&& text_of(config.output) == text_of(cli.output)
                    &&& text_of(config.input) == text_of(cli.input)
                },
                Err(problem) => made matches Err(DataGeneratorError::Other(text)) && text@
                    == problem.description(),
            },
    {
        let years = match cli.parse_years() {
            Ok(years) => years,
            Err(error) => {
                return Err(error);
            },
        };
        Ok(
            Config {
                registers: copy_strings(&cli.registers),
                years,
                rows: cli.rows,
                threads: cli.threads,
                output: copy_string(&cli.output),
                input: copy_string(&cli.input),
            },
        )
    }
}

} // verus!
