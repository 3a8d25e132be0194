use crate::generate::mappings::Mappings;
use crate::registers::bef::bef_table;
use crate::generate::pnr_model::PnrPoolView;
use crate::generate::recnum::RecnumPoolView;
use crate::registers::cell::{rule_can_run, year_allows_persons};
use crate::registers::lpr2::{lpr_adm_table, lpr_bes_table, lpr_diag_table};
use crate::registers::lpr3::{lpr3_diagnoser_table, lpr3_kontakter_table};
use crate::registers::other::{akm_table, idan_table, ind_table, uddf_table};
use crate::registers::rule::{rule_in, Register, RuleTable};
use vstd::prelude::*;

verus! {

/// Whether every mapping has codes.
pub open spec fn mappings_filled(mappings: Mappings) -> bool {
    &&& mappings.scd@.len() > 0
    &&& mappings.socio13@.len() > 0
    &&& mappings.fm_mark@.len() > 0
    &&& mappings.hustype@.len() > 0
    &&& mappings.plads@.len() > 0
    &&& mappings.reg@.len() > 0
    &&& mappings.statsb@.len() > 0
    &&& mappings.jobkat@.len() > 0
    &&& mappings.tilknyt@.len() > 0
    &&& mappings.pre_socio@.len() > 0
    &&& mappings.beskst13@.len() > 0
}

/// Whether values can be made for rows of `year` by every rule of `table`
/// but the rules for amounts.
pub open spec fn table_can_run(
    table: RuleTable,
    year: int,
    mappings: Mappings,
    persons: PnrPoolView,
    contacts: RecnumPoolView,
) -> bool {
    forall|i: int|
        0 <= i < table.len() ==> (#[trigger] table[i]).1 is Amount || rule_can_run(
            table[i].1,
            year,
            mappings,
            persons,
            contacts,
        )
}

/// Whether values can be made for rows of `year` by every rule that has
/// nothing but its own ranges to fail on: the mappings have codes, persons
/// can be minted in the pool, and a sequence number is left.
pub open spec fn ready_for(
    year: int,
    mappings: Mappings,
    persons: PnrPoolView,
    contacts: RecnumPoolView,
) -> bool {
    &&& mappings_filled(mappings)
    &&& persons.wf()
    &&& year_allows_persons(year, persons)
    &&& contacts.next_recnum < u64::MAX
}

/// A rule that is found in a table is the rule of one of its entries.
pub proof fn lemma_rule_in_table(table: RuleTable, name: Seq<char>)
    requires
        rule_in(table, name) is Some,
    ensures
        exists|i: int|
            0 <= i < table.len() && #[trigger] table[i] == (name, rule_in(table, name)->0),
    decreases table.len(),
{
    if table[0].0 == name {
        assert(table[0] == (name, rule_in(table, name)->0));
    } else {
        lemma_rule_in_table(table.skip(1), name);
        let i = choose|i: int|
            0 <= i < table.skip(1).len() && #[trigger] table.skip(1)[i] == (
                name,
                rule_in(table, name)->0,
            );
        assert(table[i + 1] == table.skip(1)[i]);
    }
}

/// With mappings that have codes, in a year for which persons can be
/// minted and with a sequence number left, values can be made by every rule
/// that a register has for a column, but for amounts: no rule of the
/// registers draws from an empty range.
pub proof fn lemma_rules_can_run(
    register: Register,
    name: Seq<char>,
    year: int,
    mappings: Mappings,
    persons: PnrPoolView,
    contacts: RecnumPoolView,
)
    requires
        ready_for(year, mappings, persons, contacts),
        rule_in(register.table(), name) is Some,
    ensures
        rule_in(register.table(), name)->0 is Amount || rule_can_run(
            rule_in(register.table(), name)->0,
            year,
            mappings,
            persons,
            contacts,
        ),
{
    let table = register.table();
    assert(table_can_run(table, year, mappings, persons, contacts)) by {
        match register {
            Register::Akm => lemma_akm_can_run(year, mappings, persons, contacts),
            Register::Idan => lemma_idan_can_run(year, mappings, persons, contacts),
            Register::Ind => lemma_ind_can_run(year, mappings, persons, contacts),
            Register::Uddf => lemma_uddf_can_run(year, mappings, persons, contacts),
            Register::Lpr3Diagnoser => lemma_lpr3_diagnoser_can_run(
                year,
                mappings,
                persons,
                contacts,
            ),
            Register::Lpr3Kontakter => lemma_lpr3_kontakter_can_run(
                year,
                mappings,
                persons,
                contacts,
            ),
            Register::LprAdm => lemma_lpr_adm_can_run(year, mappings, persons, contacts),
            Register::LprBes => lemma_lpr_bes_can_run(year, mappings, persons, contacts),
            Register::LprDiag => lemma_lpr_diag_can_run(year, mappings, persons, contacts),
            Register::Bef => lemma_bef_can_run(year, mappings, persons, contacts),
        }
    }
    lemma_rule_in_table(table, name);
}

proof fn lemma_akm_can_run(
    year: int,
    mappings: Mappings,
    persons: PnrPoolView,
    contacts: RecnumPoolView,
)
    requires
        ready_for(year, mappings, persons, contacts),
    ensures
        table_can_run(akm_table(), year, mappings, persons, contacts),
{
}

proof fn lemma_idan_can_run(
    year: int,
    mappings: Mappings,
    persons: PnrPoolView,
    contacts: RecnumPoolView,
)
    requires
        ready_for(year, mappings, persons, contacts),
    ensures
        table_can_run(idan_table(), year, mappings, persons, contacts),
{
}

proof fn lemma_ind_can_run(
    year: int,
    mappings: Mappings,
    persons: PnrPoolView,
    contacts: RecnumPoolView,
)
    requires
        ready_for(year, mappings, persons, contacts),
    ensures
        table_can_run(ind_table(), year, mappings, persons, contacts),
{
}

proof fn lemma_uddf_can_run(
    year: int,
    mappings: Mappings,
    persons: PnrPoolView,
    contacts: RecnumPoolView,
)
    requires
        ready_for(year, mappings, persons, contacts),
    ensures
        table_can_run(uddf_table(), year, mappings, persons, contacts),
{
}

proof fn lemma_lpr3_diagnoser_can_run(
    year: int,
    mappings: Mappings,
    persons: PnrPoolView,
    contacts: RecnumPoolView,
)
    requires
        ready_for(year, mappings, persons, contacts),
    ensures
        table_can_run(lpr3_diagnoser_table(), year, mappings, persons, contacts),
{
}

proof fn lemma_lpr3_kontakter_can_run(
    year: int,
    mappings: Mappings,
    persons: PnrPoolView,
    contacts: RecnumPoolView,
)
    requires
        ready_for(year, mappings, persons, contacts),
    ensures
        table_can_run(lpr3_kontakter_table(), year, mappings, persons, contacts),
{
}

proof fn lemma_lpr_adm_can_run(
    year: int,
    mappings: Mappings,
    persons: PnrPoolView,
    contacts: RecnumPoolView,
)
    requires
        ready_for(year, mappings, persons, contacts),
    ensures
        table_can_run(lpr_adm_table(), year, mappings, persons, contacts),
{
}

proof fn lemma_lpr_bes_can_run(
    year: int,
    mappings: Mappings,
    persons: PnrPoolView,
    contacts: RecnumPoolView,
)
    requires
        ready_for(year, mappings, persons, contacts),
    ensures
        table_can_run(lpr_bes_table(), year, mappings, persons, contacts),
{
}

proof fn lemma_lpr_diag_can_run(
    year: int,
    mappings: Mappings,
    persons: PnrPoolView,
    contacts: RecnumPoolView,
)
    requires
        ready_for(year, mappings, persons, contacts),
    ensures
        table_can_run(lpr_diag_table(), year, mappings, persons, contacts),
{
}

proof fn lemma_bef_can_run(
    year: int,
    mappings: Mappings,
    persons: PnrPoolView,
    contacts: RecnumPoolView,
)
    requires
        ready_for(year, mappings, persons, contacts),
    ensures
        table_can_run(bef_table(), year, mappings, persons, contacts),
{
}

} // verus!
