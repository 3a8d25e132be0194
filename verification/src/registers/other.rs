use crate::date::DateFormat;
use crate::registers::rule::{table_of, Choices, ColumnRule, Mapping, NumberWidth, RuleTable};
use vstd::prelude::*;

verus! {

/// The rules of the columns of the register of attachment to the labour market.
pub open spec fn akm_table() -> RuleTable {
    seq![
        ("PNR"@, ColumnRule::PaddedNumber { low: 100_000_000, high: 999_999_999, width: 10 }),
        ("SOCIO"@, ColumnRule::MappingKey(Mapping::Socio13)),
        ("SOCIO02"@, ColumnRule::MappingKey(Mapping::Socio13)),
        ("SOCIO13"@, ColumnRule::MappingKey(Mapping::Socio13)),
        ("CPRTJEK"@, ColumnRule::Choice(Choices::CheckMark)),
        ("CPRTYPE"@, ColumnRule::Choice(Choices::CprType)),
        ("VERSION"@, ColumnRule::PaddedNumber { low: 2000, high: 2023, width: 4 }),
        ("SENR"@, ColumnRule::PaddedNumber { low: 100_000, high: 999_999, width: 6 }),
    ]
}

/// The rules of the columns of the register of attachment to the labour market.
pub fn akm_rules() -> (entries: Vec<(&'static str, ColumnRule)>)
    ensures
        table_of(entries@) == akm_table(),
{
    let entries = vec![
        ("PNR", ColumnRule::PaddedNumber { low: 100_000_000, high: 999_999_999, width: 10 }),
        ("SOCIO", ColumnRule::MappingKey(Mapping::Socio13)),
        ("SOCIO02", ColumnRule::MappingKey(Mapping::Socio13)),
        ("SOCIO13", ColumnRule::MappingKey(Mapping::Socio13)),
        ("CPRTJEK", ColumnRule::Choice(Choices::CheckMark)),
        ("CPRTYPE", ColumnRule::Choice(Choices::CprType)),
        ("VERSION", ColumnRule::PaddedNumber { low: 2000, high: 2023, width: 4 }),
        ("SENR", ColumnRule::PaddedNumber { low: 100_000, high: 999_999, width: 6 }),
    ];
    assert(table_of(entries@) =~= akm_table());
    entries
}

/// The rules of the columns of the register of education.
pub open spec fn uddf_table() -> RuleTable {
    seq![
        ("PNR"@, ColumnRule::PaddedNumber { low: 100_000_000, high: 999_999_999, width: 10 }),
        ("CPRTJEK"@, ColumnRule::Choice(Choices::CheckMark)),
        ("CPRTYPE"@, ColumnRule::Choice(Choices::CheckMark)),
        ("HFAUDD"@, ColumnRule::PaddedNumber { low: 1, high: 10, width: 1 }),
        ("HF_KILDE"@, ColumnRule::Choice(Choices::LetterCode)),
        (
            "HF_VFRA"@,
            ColumnRule::DateBetween {
                first_year: 1900,
                end_year: 2023,
                format: DateFormat::Compact,
            },
        ),
        (
            "HF_VTIL"@,
            ColumnRule::DateBetween {
                first_year: 1900,
                end_year: 2023,
                format: DateFormat::Compact,
            },
        ),
        ("INSTNR"@, ColumnRule::Number { first: 1, end: 100, size: NumberWidth::I8 }),
        ("VERSION"@, ColumnRule::PaddedNumber { low: 2000, high: 2023, width: 4 }),
    ]
}

/// The rules of the columns of the register of education.
pub fn uddf_rules() -> (entries: Vec<(&'static str, ColumnRule)>)
    ensures
        table_of(entries@) == uddf_table(),
{
    let entries = vec![
        ("PNR", ColumnRule::PaddedNumber { low: 100_000_000, high: 999_999_999, width: 10 }),
        ("CPRTJEK", ColumnRule::Choice(Choices::CheckMark)),
        ("CPRTYPE", ColumnRule::Choice(Choices::CheckMark)),
        ("HFAUDD", ColumnRule::PaddedNumber { low: 1, high: 10, width: 1 }),
        ("HF_KILDE", ColumnRule::Choice(Choices::LetterCode)),
        (
            "HF_VFRA",
            ColumnRule::DateBetween {
                first_year: 1900,
                end_year: 2023,
                format: DateFormat::Compact,
            },
        ),
        (
            "HF_VTIL",
            ColumnRule::DateBetween {
                first_year: 1900,
                end_year: 2023,
                format: DateFormat::Compact,
            },
        ),
        ("INSTNR", ColumnRule::Number { first: 1, end: 100, size: NumberWidth::I8 }),
        ("VERSION", ColumnRule::PaddedNumber { low: 2000, high: 2023, width: 4 }),
    ];
    assert(table_of(entries@) =~= uddf_table());
    entries
}

/// The rules of the columns of the register of income.
pub open spec fn ind_table() -> RuleTable {
    seq![
        ("BESKST13"@, ColumnRule::MappingKey(Mapping::Beskst13)),
        ("CPRTJEK"@, ColumnRule::Choice(Choices::CheckMark)),
        ("CPRTYPE"@, ColumnRule::Choice(Choices::CheckMark)),
        ("LOENMV_13"@, ColumnRule::Amount { from: 0, below: 1_000_000 }),
        ("PERINDKIALT_13"@, ColumnRule::Amount { from: 0, below: 2_000_000 }),
        ("PNR"@, ColumnRule::PaddedNumber { low: 100_000_000, high: 999_999_999, width: 10 }),
        ("PRE_SOCIO"@, ColumnRule::MappingKey(Mapping::PreSocio)),
        ("VERSION"@, ColumnRule::PaddedNumber { low: 2000, high: 2023, width: 4 }),
    ]
}

/// The rules of the columns of the register of income.
pub fn ind_rules() -> (entries: Vec<(&'static str, ColumnRule)>)
    ensures
        table_of(entries@) == ind_table(),
{
    let entries = vec![
        ("BESKST13", ColumnRule::MappingKey(Mapping::Beskst13)),
        ("CPRTJEK", ColumnRule::Choice(Choices::CheckMark)),
        ("CPRTYPE", ColumnRule::Choice(Choices::CheckMark)),
        ("LOENMV_13", ColumnRule::Amount { from: 0, below: 1_000_000 }),
        ("PERINDKIALT_13", ColumnRule::Amount { from: 0, below: 2_000_000 }),
        ("PNR", ColumnRule::PaddedNumber { low: 100_000_000, high: 999_999_999, width: 10 }),
        ("PRE_SOCIO", ColumnRule::MappingKey(Mapping::PreSocio)),
        ("VERSION", ColumnRule::PaddedNumber { low: 2000, high: 2023, width: 4 }),
    ];
    assert(table_of(entries@) =~= ind_table());
    entries
}

/// The rules of the columns of the register of employment.
pub open spec fn idan_table() -> RuleTable {
    seq![
        ("ARBGNR"@, ColumnRule::PaddedNumber { low: 10_000_000, high: 99_999_999, width: 8 }),
        ("ARBNR"@, ColumnRule::PaddedNumber { low: 10_000_000, high: 99_999_999, width: 8 }),
        ("CVRNR"@, ColumnRule::PaddedNumber { low: 10_000_000, high: 99_999_999, width: 8 }),
        ("LBNR"@, ColumnRule::PaddedNumber { low: 10_000_000, high: 99_999_999, width: 8 }),
        ("CPRTJEK"@, ColumnRule::Choice(Choices::CheckMark)),
        ("CPRTYPE"@, ColumnRule::Choice(Choices::CheckMark)),
        ("PNR"@, ColumnRule::PaddedNumber { low: 100_000_000, high: 999_999_999, width: 10 }),
        ("JOBKAT"@, ColumnRule::MappingKey(Mapping::Jobkat)),
        ("JOBLON"@, ColumnRule::Amount { from: 15_000, below: 100_000 }),
        ("STILL"@, ColumnRule::Choice(Choices::Position)),
        ("TILKNYT"@, ColumnRule::MappingKey(Mapping::Tilknyt)),
    ]
}

/// The rules of the columns of the register of employment.
pub fn idan_rules() -> (entries: Vec<(&'static str, ColumnRule)>)
    ensures
        table_of(entries@) == idan_table(),
{
    let entries = vec![
        ("ARBGNR", ColumnRule::PaddedNumber { low: 10_000_000, high: 99_999_999, width: 8 }),
        ("ARBNR", ColumnRule::PaddedNumber { low: 10_000_000, high: 99_999_999, width: 8 }),
        ("CVRNR", ColumnRule::PaddedNumber { low: 10_000_000, high: 99_999_999, width: 8 }),
        ("LBNR", ColumnRule::PaddedNumber { low: 10_000_000, high: 99_999_999, width: 8 }),
        ("CPRTJEK", ColumnRule::Choice(Choices::CheckMark)),
        ("CPRTYPE", ColumnRule::Choice(Choices::CheckMark)),
        ("PNR", ColumnRule::PaddedNumber { low: 100_000_000, high: 999_999_999, width: 10 }),
        ("JOBKAT", ColumnRule::MappingKey(Mapping::Jobkat)),
        ("JOBLON", ColumnRule::Amount { from: 15_000, below: 100_000 }),
        ("STILL", ColumnRule::Choice(Choices::Position)),
        ("TILKNYT", ColumnRule::MappingKey(Mapping::Tilknyt)),
    ];
    assert(table_of(entries@) =~= idan_table());
    entries
}

} // verus!
