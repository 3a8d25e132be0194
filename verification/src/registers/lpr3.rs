use crate::date::DateFormat;
use crate::registers::rule::{table_of, Choices, ColumnRule, RuleTable};
use vstd::prelude::*;

verus! {

/// The rules of the columns of the register of contacts.
pub open spec fn lpr3_kontakter_table() -> RuleTable {
    seq![
        ("SORENHED_IND"@, ColumnRule::PaddedNumber { low: 100_000, high: 999_999, width: 6 }),
        ("SORENHED_HEN"@, ColumnRule::PaddedNumber { low: 100_000, high: 999_999, width: 6 }),
        ("SORENHED_ANS"@, ColumnRule::PaddedNumber { low: 100_000, high: 999_999, width: 6 }),
        ("DW_EK_KONTAKT"@, ColumnRule::ContactOfPerson),
        ("DW_EK_FORLOEB"@, ColumnRule::ContactOfPerson),
        ("CPR"@, ColumnRule::PatientId),
        ("dato_start"@, ColumnRule::DateInYear(DateFormat::NamedMonth)),
        ("dato_slut"@, ColumnRule::DateInYear(DateFormat::NamedMonth)),
        ("dato_behandling_start"@, ColumnRule::DateInYear(DateFormat::NamedMonth)),
        ("dato_indberetning"@, ColumnRule::DateInYear(DateFormat::NamedMonth)),
        ("tidspunkt_start"@, ColumnRule::TimeOfDay),
        ("tidspunkt_slut"@, ColumnRule::TimeOfDay),
        ("tidspunkt_behandling_start"@, ColumnRule::TimeOfDay),
        ("aktionsdiagnose"@, ColumnRule::Diagnosis),
        ("kontaktaarsag"@, ColumnRule::Choice(Choices::ContactCode)),
        ("prioritet"@, ColumnRule::Choice(Choices::Priority)),
        ("kontakttype"@, ColumnRule::Choice(Choices::ContactCode)),
        ("henvisningsaarsag"@, ColumnRule::Choice(Choices::ContactCode)),
        ("henvisningsmaade"@, ColumnRule::Choice(Choices::ContactCode)),
        ("lprindberetningssytem"@, ColumnRule::Choice(Choices::ContactSystem)),
    ]
}

/// The rules of the columns of the register of contacts.
pub fn lpr3_kontakter_rules() -> (entries: Vec<(&'static str, ColumnRule)>)
    ensures
        table_of(entries@) == lpr3_kontakter_table(),
{
    let entries = vec![
        ("SORENHED_IND", ColumnRule::PaddedNumber { low: 100_000, high: 999_999, width: 6 }),
        ("SORENHED_HEN", ColumnRule::PaddedNumber { low: 100_000, high: 999_999, width: 6 }),
        ("SORENHED_ANS", ColumnRule::PaddedNumber { low: 100_000, high: 999_999, width: 6 }),
        ("DW_EK_KONTAKT", ColumnRule::ContactOfPerson),
        ("DW_EK_FORLOEB", ColumnRule::ContactOfPerson),
        ("CPR", ColumnRule::PatientId),
        ("dato_start", ColumnRule::DateInYear(DateFormat::NamedMonth)),
        ("dato_slut", ColumnRule::DateInYear(DateFormat::NamedMonth)),
        ("dato_behandling_start", ColumnRule::DateInYear(DateFormat::NamedMonth)),
        ("dato_indberetning", ColumnRule::DateInYear(DateFormat::NamedMonth)),
        ("tidspunkt_start", ColumnRule::TimeOfDay),
        ("tidspunkt_slut", ColumnRule::TimeOfDay),
        ("tidspunkt_behandling_start", ColumnRule::TimeOfDay),
        ("aktionsdiagnose", ColumnRule::Diagnosis),
        ("kontaktaarsag", ColumnRule::Choice(Choices::ContactCode)),
        ("prioritet", ColumnRule::Choice(Choices::Priority)),
        ("kontakttype", ColumnRule::Choice(Choices::ContactCode)),
        ("henvisningsaarsag", ColumnRule::Choice(Choices::ContactCode)),
        ("henvisningsmaade", ColumnRule::Choice(Choices::ContactCode)),
        ("lprindberetningssytem", ColumnRule::Choice(Choices::ContactSystem)),
    ];
    assert(table_of(entries@) =~= lpr3_kontakter_table());
    entries
}

/// The rules of the columns of the register of diagnoses of contacts.
pub open spec fn lpr3_diagnoser_table() -> RuleTable {
    seq![
        ("DW_EK_KONTAKT"@, ColumnRule::NewContact),
        ("diagnosekode"@, ColumnRule::Diagnosis),
        ("diagnosekode_parent"@, ColumnRule::Diagnosis),
        ("diagnosetype"@, ColumnRule::Choice(Choices::DiagnosisType)),
        ("diagnosetype_parent"@, ColumnRule::Choice(Choices::DiagnosisType)),
        (
            "senere_afkraeftet"@,
            ColumnRule::Flag { numerator: 1, denominator: 10, yes: '1', no: '0' },
        ),
        ("lprindberetningssystem"@, ColumnRule::Choice(Choices::DiagnosisSystem)),
    ]
}

/// The rules of the columns of the register of diagnoses of contacts.
pub fn lpr3_diagnoser_rules() -> (entries: Vec<(&'static str, ColumnRule)>)
    ensures
        table_of(entries@) == lpr3_diagnoser_table(),
{
    let entries = vec![
        ("DW_EK_KONTAKT", ColumnRule::NewContact),
        ("diagnosekode", ColumnRule::Diagnosis),
        ("diagnosekode_parent", ColumnRule::Diagnosis),
        ("diagnosetype", ColumnRule::Choice(Choices::DiagnosisType)),
        ("diagnosetype_parent", ColumnRule::Choice(Choices::DiagnosisType)),
        (
            "senere_afkraeftet",
            ColumnRule::Flag { numerator: 1, denominator: 10, yes: '1', no: '0' },
        ),
        ("lprindberetningssystem", ColumnRule::Choice(Choices::DiagnosisSystem)),
    ];
    assert(table_of(entries@) =~= lpr3_diagnoser_table());
    entries
}

} // verus!
