use crate::registers::rule::{table_of, ColumnRule, Mapping, NumberWidth, RuleTable};
use vstd::prelude::*;

verus! {

/// The rules of the columns of the population register.
pub open spec fn bef_table() -> RuleTable {
    seq![
        ("PNR"@, ColumnRule::PersonId),
        ("FOED_DAG"@, ColumnRule::BirthDate),
        ("ALDER"@, ColumnRule::Age),
        ("FAR_ID"@, ColumnRule::FatherId),
        ("MOR_ID"@, ColumnRule::MotherId),
        ("KOEN"@, ColumnRule::GenderOfPerson),
        ("CIVST"@, ColumnRule::CivilStatus),
        ("FM_MARK"@, ColumnRule::MappingKey(Mapping::FmMark)),
        ("HUSTYPE"@, ColumnRule::MappingKey(Mapping::Hustype)),
        ("PLADS"@, ColumnRule::MappingKey(Mapping::Plads)),
        ("REG"@, ColumnRule::MappingKey(Mapping::Reg)),
        ("KOM"@, ColumnRule::Number { first: 101, end: 851, size: NumberWidth::I16 }),
        ("STATSB"@, ColumnRule::MappingKey(Mapping::Statsb)),
        ("AEGTE_ID"@, ColumnRule::SpouseId),
    ]
}

/// The rules of the columns of the population register.
pub fn bef_rules() -> (entries: Vec<(&'static str, ColumnRule)>)
    ensures
        table_of(entries@) == bef_table(),
{
    let entries = vec![
        ("PNR", ColumnRule::PersonId),
        ("FOED_DAG", ColumnRule::BirthDate),
        ("ALDER", ColumnRule::Age),
        ("FAR_ID", ColumnRule::FatherId),
        ("MOR_ID", ColumnRule::MotherId),
        ("KOEN", ColumnRule::GenderOfPerson),
        ("CIVST", ColumnRule::CivilStatus),
        ("FM_MARK", ColumnRule::MappingKey(Mapping::FmMark)),
        ("HUSTYPE", ColumnRule::MappingKey(Mapping::Hustype)),
        ("PLADS", ColumnRule::MappingKey(Mapping::Plads)),
        ("REG", ColumnRule::MappingKey(Mapping::Reg)),
        ("KOM", ColumnRule::Number { first: 101, end: 851, size: NumberWidth::I16 }),
        ("STATSB", ColumnRule::MappingKey(Mapping::Statsb)),
        ("AEGTE_ID", ColumnRule::SpouseId),
    ];
    assert(table_of(entries@) =~= bef_table());
    entries
}

} // verus!
