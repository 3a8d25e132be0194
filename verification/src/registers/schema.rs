use crate::registers::bef::{bef_rules, bef_table};
use crate::registers::lpr2::{
    lpr_adm_rules, lpr_adm_table, lpr_bes_rules, lpr_bes_table, lpr_diag_rules, lpr_diag_table,
};
use crate::registers::lpr3::{
    lpr3_diagnoser_rules, lpr3_diagnoser_table, lpr3_kontakter_rules, lpr3_kontakter_table,
};
use crate::registers::other::{
    akm_rules, akm_table, idan_rules, idan_table, ind_rules, ind_table, uddf_rules, uddf_table,
};
use crate::registers::rule::{find_rule, rule_in, same_text, ColumnRule, Register, RuleTable};
use vstd::prelude::*;

verus! {

/// The register that a name stands for. A name that is not the name of
/// another register stands for the population register.
pub open spec fn register_of_name(name: Seq<char>) -> Register {
    if name == "akm"@ {
        Register::Akm
    } else if name == "idan"@ {
        Register::Idan
    } else if name == "ind"@ {
        Register::Ind
    } else if name == "uddf"@ {
        Register::Uddf
    } else if name == "lpr3_diagnoser"@ {
        Register::Lpr3Diagnoser
    } else if name == "lpr3_kontakter"@ {
        Register::Lpr3Kontakter
    } else if name == "lpr_adm"@ {
        Register::LprAdm
    } else if name == "lpr_bes"@ {
        Register::LprBes
    } else if name == "lpr_diag"@ {
        Register::LprDiag
    } else {
        Register::Bef
    }
}

/// The register that a schema with the given column names describes: each
/// register but the population register is known by a column of its own,
/// and the first of these columns that the schema has, in the order below,
/// decides. A schema with none of them describes the population register.
pub open spec fn register_of_columns(names: Seq<Seq<char>>) -> Register {
    if names.contains("SOCIO13"@) {
        Register::Akm
    } else if names.contains("JOBKAT"@) {
        Register::Idan
    } else if names.contains("BESKST13"@) {
        Register::Ind
    } else if names.contains("HFAUDD"@) {
        Register::Uddf
    } else if names.contains("diagnosekode"@) {
        Register::Lpr3Diagnoser
    } else if names.contains("DW_EK_KONTAKT"@) {
        Register::Lpr3Kontakter
    } else if names.contains("C_ADIAG"@) {
        Register::LprAdm
    } else if names.contains("D_AMBDTO"@) {
        Register::LprBes
    } else if names.contains("C_DIAG"@) {
        Register::LprDiag
    } else {
        Register::Bef
    }
}

/// Whether one of the names is `wanted`.
fn has_column(names: &Vec<String>, wanted: &str) -> (found: bool)
    ensures
        found == names@.map_values(|name: String| name@).contains(wanted@),
{
    let ghost texts = names@.map_values(|name: String| name@);
    let mut at: usize = 0;
    while at < names.len()
        invariant
            at <= names@.len(),
            texts == names@.map_values(|name: String| name@),
            forall|i: int| 0 <= i < at ==> texts[i] != wanted@,
        decreases names@.len() - at,
    {
        assert(texts[at as int] == names@[at as int]@);
        if same_text(names[at].as_str(), wanted) {
            return true;
        }
        at = at + 1;
    }
    false
}

/// The register that a schema with the given column names describes.
pub fn infer_register(names: &Vec<String>) -> (register: Register)
    ensures
        register == register_of_columns(names@.map_values(|name: String| name@)),
{
    if has_column(names, "SOCIO13") {
        Register::Akm
    } else if has_column(names, "JOBKAT") {
        Register::Idan
    } else if has_column(names, "BESKST13") {
        Register::Ind
    } else if has_column(names, "HFAUDD") {
        Register::Uddf
    } else if has_column(names, "diagnosekode") {
        Register::Lpr3Diagnoser
    } else if has_column(names, "DW_EK_KONTAKT") {
        Register::Lpr3Kontakter
    } else if has_column(names, "C_ADIAG") {
        Register::LprAdm
    } else if has_column(names, "D_AMBDTO") {
        Register::LprBes
    } else if has_column(names, "C_DIAG") {
        Register::LprDiag
    } else {
        Register::Bef
    }
}

impl Register {
    /// The register that `name` stands for.
    pub fn from_name(name: &str) -> (register: Register)
        ensures
            register == register_of_name(name@),
    {
        if same_text(name, "akm") {
            Register::Akm
        } else if same_text(name, "idan") {
            Register::Idan
        } else if same_text(name, "ind") {
            Register::Ind
        } else if same_text(name, "uddf") {
            Register::Uddf
        } else if same_text(name, "lpr3_diagnoser") {
            Register::Lpr3Diagnoser
        } else if same_text(name, "lpr3_kontakter") {
            Register::Lpr3Kontakter
        } else if same_text(name, "lpr_adm") {
            Register::LprAdm
        } else if same_text(name, "lpr_bes") {
            Register::LprBes
        } else if same_text(name, "lpr_diag") {
            Register::LprDiag
        } else {
            Register::Bef
        }
    }

    /// The rules of the columns of the register.
    pub open spec fn table(self) -> RuleTable {
        match self {
            Register::Akm => akm_table(),
            Register::Idan => idan_table(),
            Register::Ind => ind_table(),
            Register::Uddf => uddf_table(),
            Register::Lpr3Diagnoser => lpr3_diagnoser_table(),
            Register::Lpr3Kontakter => lpr3_kontakter_table(),
            Register::LprAdm => lpr_adm_table(),
            Register::LprBes => lpr_bes_table(),
            Register::LprDiag => lpr_diag_table(),
            Register::Bef => bef_table(),
        }
    }

    /// What a column that has no rule is called in this register.
    pub open spec fn column_label(self) -> Seq<char> {
        match self {
            Register::Akm => "AKM column"@,
            Register::Idan => "IDAN column"@,
            Register::Ind => "IND column"@,
            Register::Uddf => "UDDF column"@,
            Register::Lpr3Diagnoser => "LPR3_DIAGNOSER column"@,
            Register::Lpr3Kontakter => "LPR3_KONTAKTER column"@,
            Register::LprAdm => "LPR_ADM column"@,
            Register::LprBes => "LPR_BES column"@,
            Register::LprDiag => "LPR_DIAG column"@,
            Register::Bef => "column"@,
        }
    }

    /// The complaint about a column that the register has no rule for.
    pub fn unsupported_column(&self, name: &str) -> (text: String)
        ensures
            text@ == "Unsupported "@ + self.column_label() + ": "@ + name@,
    {
        let label: &str = match self {
            Register::Akm => "AKM column",
            Register::Idan => "IDAN column",
            Register::Ind => "IND column",
            Register::Uddf => "UDDF column",
            Register::Lpr3Diagnoser => "LPR3_DIAGNOSER column",
            Register::Lpr3Kontakter => "LPR3_KONTAKTER column",
            Register::LprAdm => "LPR_ADM column",
            Register::LprBes => "LPR_BES column",
            Register::LprDiag => "LPR_DIAG column",
            Register::Bef => "column",
        };
        let mut text = String::from_str("Unsupported ");
        text.append(label);
        text.append(": ");
        text.append(name);
        text
    }
}

/// The rule of the column `name` of `register`; `None` for a column that
/// the register has no rule for.
pub fn column_rule(register: Register, name: &str) -> (rule: Option<ColumnRule>)
    ensures
        rule == rule_in(register.table(), name@),
{
    let entries = match register {
        Register::Akm => akm_rules(),
        Register::Idan => idan_rules(),
        Register::Ind => ind_rules(),
        Register::Uddf => uddf_rules(),
        Register::Lpr3Diagnoser => lpr3_diagnoser_rules(),
        Register::Lpr3Kontakter => lpr3_kontakter_rules(),
        Register::LprAdm => lpr_adm_rules(),
        Register::LprBes => lpr_bes_rules(),
        Register::LprDiag => lpr_diag_rules(),
        Register::Bef => bef_rules(),
    };
    find_rule(&entries, name)
}

} // verus!
