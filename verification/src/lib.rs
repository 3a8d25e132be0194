//! Synthetic register data with consistent identities.
//!
//! The library makes the values of columns of Danish-style administrative
//! registers. Its core are two pools that keep identities consistent across
//! registers: `generate::pnr::PnrPool` mints persons, whose identifiers
//! spell birth date and gender, in whole birth cohorts with parents; and
//! `generate::recnum::RecnumPool` gives out contact identifiers and keeps
//! the contacts of each person. Around them stand the rules by which the
//! columns of each register are made (`registers`), the layout of the files
//! that tables are written to (`write`), and the reading of the command
//! line (`cli`, `config`).
//!
//! Every function states what it returns and changes, and is verified
//! against that statement. Random draws, calendar dates and their texts
//! come from the crates `rand` and `chrono`; what is taken on trust of them
//! is said where they are called, in `random`, `date` and `text`.

pub mod cli;
pub mod config;
pub mod date;
pub mod error;
pub mod generate;
pub mod random;
pub mod registers;
pub mod text;
pub mod write;
