use crate::date::DateFormat;
use crate::registers::rule::{table_of, Choices, ColumnRule, NumberWidth, RuleTable};
use vstd::prelude::*;

verus! {

/// The rules of the columns of the register of diagnoses of admissions.
pub open spec fn lpr_diag_table() -> RuleTable {
    seq![
        ("C_DIAG"@, ColumnRule::Diagnosis),
        ("C_DIAGTYPE"@, ColumnRule::Choice(Choices::DiagnosisType)),
        ("C_TILDIAG"@, ColumnRule::Diagnosis),
        ("LEVERANCEDATO"@, ColumnRule::DateInYear(DateFormat::Iso)),
        ("RECNUM"@, ColumnRule::ContactOfPerson),
        ("VERSION"@, ColumnRule::PaddedNumber { low: 2000, high: 2023, width: 4 }),
    ]
}

/// The rules of the columns of the register of diagnoses of admissions.
pub fn lpr_diag_rules() -> (entries: Vec<(&'static str, ColumnRule)>)
    ensures
        table_of(entries@) == lpr_diag_table(),
{
    let entries = vec![
        ("C_DIAG", ColumnRule::Diagnosis),
        ("C_DIAGTYPE", ColumnRule::Choice(Choices::DiagnosisType)),
        ("C_TILDIAG", ColumnRule::Diagnosis),
        ("LEVERANCEDATO", ColumnRule::DateInYear(DateFormat::Iso)),
        ("RECNUM", ColumnRule::ContactOfPerson),
        ("VERSION", ColumnRule::PaddedNumber { low: 2000, high: 2023, width: 4 }),
    ];
    assert(table_of(entries@) =~= lpr_diag_table());
    entries
}

/// The rules of the columns of the register of outpatient visits.
pub open spec fn lpr_bes_table() -> RuleTable {
    seq![
        ("D_AMBDTO"@, ColumnRule::DateInYear(DateFormat::Iso)),
        ("LEVERANCEDATO"@, ColumnRule::DateInYear(DateFormat::Iso)),
        ("RECNUM"@, ColumnRule::ContactOfPerson),
        ("VERSION"@, ColumnRule::PaddedNumber { low: 2000, high: 2023, width: 4 }),
    ]
}

/// The rules of the columns of the register of outpatient visits.
pub fn lpr_bes_rules() -> (entries: Vec<(&'static str, ColumnRule)>)
    ensures
        table_of(entries@) == lpr_bes_table(),
{
    let entries = vec![
        ("D_AMBDTO", ColumnRule::DateInYear(DateFormat::Iso)),
        ("LEVERANCEDATO", ColumnRule::DateInYear(DateFormat::Iso)),
        ("RECNUM", ColumnRule::ContactOfPerson),
        ("VERSION", ColumnRule::PaddedNumber { low: 2000, high: 2023, width: 4 }),
    ];
    assert(table_of(entries@) =~= lpr_bes_table());
    entries
}

/// The rules of the columns of the register of admissions.
pub open spec fn lpr_adm_table() -> RuleTable {
    seq![
        ("PNR"@, ColumnRule::PatientId),
        ("C_ADIAG"@, ColumnRule::Diagnosis),
        ("C_AFD"@, ColumnRule::PaddedNumber { low: 1000, high: 9999, width: 4 }),
        ("C_HAFD"@, ColumnRule::PaddedNumber { low: 1000, high: 9999, width: 4 }),
        ("K_AFD"@, ColumnRule::PaddedNumber { low: 1000, high: 9999, width: 4 }),
        ("C_HENM"@, ColumnRule::Choice(Choices::LetterCode)),
        ("C_INDM"@, ColumnRule::Choice(Choices::LetterCode)),
        ("C_KONTAARS"@, ColumnRule::Choice(Choices::LetterCode)),
        ("C_UDM"@, ColumnRule::Choice(Choices::LetterCode)),
        ("C_HSGH"@, ColumnRule::PaddedNumber { low: 1000, high: 9999, width: 4 }),
        ("C_SGH"@, ColumnRule::PaddedNumber { low: 1000, high: 9999, width: 4 }),
        ("C_KOM"@, ColumnRule::PaddedNumber { low: 100, high: 999, width: 3 }),
        ("C_PATTYPE"@, ColumnRule::Choice(Choices::PatientType)),
        ("C_SPEC"@, ColumnRule::PaddedNumber { low: 1, high: 100, width: 3 }),
        ("CPRTJEK"@, ColumnRule::Flag { numerator: 1, denominator: 2, yes: 'V', no: 'U' }),
        ("CPRTYPE"@, ColumnRule::Flag { numerator: 1, denominator: 2, yes: 'V', no: 'U' }),
        ("D_HENDTO"@, ColumnRule::DateInYear(DateFormat::Iso)),
        ("D_INDDTO"@, ColumnRule::DateInYear(DateFormat::Iso)),
        ("D_UDDTO"@, ColumnRule::DateInYear(DateFormat::Iso)),
        ("RECNUM"@, ColumnRule::NewContact),
        ("V_ALDDG"@, ColumnRule::Number { first: 0, end: 36500, size: NumberWidth::I32 }),
        ("V_ALDER"@, ColumnRule::Number { first: 0, end: 100, size: NumberWidth::I32 }),
        ("V_INDMINUT"@, ColumnRule::Number { first: 0, end: 60, size: NumberWidth::I32 }),
        ("V_INDTIME"@, ColumnRule::Number { first: 0, end: 24, size: NumberWidth::I32 }),
        ("V_UDTIME"@, ColumnRule::Number { first: 0, end: 24, size: NumberWidth::I32 }),
        ("V_SENGDAGE"@, ColumnRule::Number { first: 0, end: 100, size: NumberWidth::I32 }),
        ("VERSION"@, ColumnRule::PaddedNumber { low: 2000, high: 2023, width: 4 }),
    ]
}

/// The rules of the columns of the register of admissions.
pub fn lpr_adm_rules() -> (entries: Vec<(&'static str, ColumnRule)>)
    ensures
        table_of(entries@) == lpr_adm_table(),
{
    let entries = vec![
        ("PNR", ColumnRule::PatientId),
        ("C_ADIAG", ColumnRule::Diagnosis),
        ("C_AFD", ColumnRule::PaddedNumber { low: 1000, high: 9999, width: 4 }),
        ("C_HAFD", ColumnRule::PaddedNumber { low: 1000, high: 9999, width: 4 }),
        ("K_AFD", ColumnRule::PaddedNumber { low: 1000, high: 9999, width: 4 }),
        ("C_HENM", ColumnRule::Choice(Choices::LetterCode)),
        ("C_INDM", ColumnRule::Choice(Choices::LetterCode)),
        ("C_KONTAARS", ColumnRule::Choice(Choices::LetterCode)),
        ("C_UDM", ColumnRule::Choice(Choices::LetterCode)),
        ("C_HSGH", ColumnRule::PaddedNumber { low: 1000, high: 9999, width: 4 }),
        ("C_SGH", ColumnRule::PaddedNumber { low: 1000, high: 9999, width: 4 }),
        ("C_KOM", ColumnRule::PaddedNumber { low: 100, high: 999, width: 3 }),
        ("C_PATTYPE", ColumnRule::Choice(Choices::PatientType)),
        ("C_SPEC", ColumnRule::PaddedNumber { low: 1, high: 100, width: 3 }),
        ("CPRTJEK", ColumnRule::Flag { numerator: 1, denominator: 2, yes: 'V', no: 'U' }),
        ("CPRTYPE", ColumnRule::Flag { numerator: 1, denominator: 2, yes: 'V', no: 'U' }),
        ("D_HENDTO", ColumnRule::DateInYear(DateFormat::Iso)),
        ("D_INDDTO", ColumnRule::DateInYear(DateFormat::Iso)),
        ("D_UDDTO", ColumnRule::DateInYear(DateFormat::Iso)),
        ("RECNUM", ColumnRule::NewContact),
        ("V_ALDDG", ColumnRule::Number { first: 0, end: 36500, size: NumberWidth::I32 }),
        ("V_ALDER", ColumnRule::Number { first: 0, end: 100, size: NumberWidth::I32 }),
        ("V_INDMINUT", ColumnRule::Number { first: 0, end: 60, size: NumberWidth::I32 }),
        ("V_INDTIME", ColumnRule::Number { first: 0, end: 24, size: NumberWidth::I32 }),
        ("V_UDTIME", ColumnRule::Number { first: 0, end: 24, size: NumberWidth::I32 }),
        ("V_SENGDAGE", ColumnRule::Number { first: 0, end: 100, size: NumberWidth::I32 }),
        ("VERSION", ColumnRule::PaddedNumber { low: 2000, high: 2023, width: 4 }),
    ];
    assert(table_of(entries@) =~= lpr_adm_table());
    entries
}

} // verus!
