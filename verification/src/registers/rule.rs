use crate::date::DateFormat;
use vstd::prelude::*;

verus! {

/// The registers that data can be generated for.
#[derive(Clone, Copy, Debug, PartialEq, Eq, Structural)]
pub enum Register {
    Akm,
    Idan,
    Ind,
    Uddf,
    Lpr3Diagnoser,
    Lpr3Kontakter,
    LprAdm,
    LprBes,
    LprDiag,
    Bef,
}

/// The sizes of the whole numbers of a column.
#[derive(Clone, Copy, Debug, PartialEq, Eq, Structural)]
pub enum NumberWidth {
    I8,
    I16,
    I32,
}

/// The fixed lists that values of a column are chosen from.
#[derive(Clone, Copy, Debug, PartialEq, Eq, Structural)]
pub enum Choices {
    /// The kinds of a diagnosis.
    DiagnosisType,
    /// The letters A to E, for ways of admission, referral and discharge and the like.
    LetterCode,
    /// The types of a patient.
    PatientType,
    /// Whether an identifier was checked: `V` or `U`.
    CheckMark,
    /// The letters A to F, for kinds of identifiers.
    CprType,
    /// The codes of reasons and kinds of a contact.
    ContactCode,
    /// The priorities of a contact.
    Priority,
    /// The systems that report contacts.
    ContactSystem,
    /// The systems that report diagnoses.
    DiagnosisSystem,
    /// The codes of positions in employment.
    Position,
}

/// The mappings from codes to labels whose codes are the values of a column.
#[derive(Clone, Copy, Debug, PartialEq, Eq, Structural)]
pub enum Mapping {
    Socio13,
    FmMark,
    Hustype,
    Plads,
    Reg,
    Statsb,
    Jobkat,
    Tilknyt,
    PreSocio,
    Beskst13,
}

/// How the values of a column are made.
#[derive(Clone, Copy, Debug, PartialEq, Eq, Structural)]
pub enum ColumnRule {
    /// A number drawn from `low` up to but not including `high`, written
    /// with zeros before it to at least `width` digits.
    PaddedNumber { low: u32, high: u32, width: u8 },
    /// A whole number of the given size, drawn from `first` up to but not
    /// including `end`.
    Number { first: i32, end: i32, size: NumberWidth },
    /// An amount drawn from `from` up to but not including `below`, with
    /// fractions.
    Amount { from: u32, below: u32 },
    /// One of a fixed list of texts.
    Choice(Choices),
    /// `yes` with a chance of `numerator` in `denominator`, else `no`.
    Flag { numerator: u32, denominator: u32, yes: char, no: char },
    /// One of the codes of a mapping.
    MappingKey(Mapping),
    /// A diagnosis code.
    Diagnosis,
    /// A day of the year that data is generated for.
    DateInYear(DateFormat),
    /// A day of a year drawn from `first_year` up to but not including
    /// `end_year`.
    DateBetween { first_year: i32, end_year: i32, format: DateFormat },
    /// A time of day.
    TimeOfDay,
    /// The identifier of a person minted for the row, born in the hundred
    /// years up to the year that data is generated for.
    PersonId,
    /// The birth date of such a person.
    BirthDate,
    /// The age of such a person in the year that data is generated for.
    Age,
    /// The identifier of the father of such a person.
    FatherId,
    /// The identifier of the mother of such a person.
    MotherId,
    /// The gender of such a person, read off the identifier.
    GenderOfPerson,
    /// The civil status of a person of the age of such a person.
    CivilStatus,
    /// The identifier of a spouse, for some persons of age.
    SpouseId,
    /// The identifier of a patient minted for the row, born in the hundred
    /// years before the year that data is generated for.
    PatientId,
    /// The identifier of a contact of a person minted for the row.
    ContactOfPerson,
    /// The identifier of a contact of nobody.
    NewContact,
}

impl ColumnRule {
    /// Whether a value is made of a person that is minted for the row.
    pub open spec fn spec_mints_persons(&self) -> bool {
        match self {
            ColumnRule::PersonId
            | ColumnRule::BirthDate
            | ColumnRule::Age
            | ColumnRule::FatherId
            | ColumnRule::MotherId
            | ColumnRule::GenderOfPerson
            | ColumnRule::CivilStatus
            | ColumnRule::SpouseId
            | ColumnRule::PatientId
            | ColumnRule::ContactOfPerson => true,
            _ => false,
        }
    }

    /// Whether a value is made of a person that is minted for the row.
    #[verifier::when_used_as_spec(spec_mints_persons)]
    pub fn mints_persons(&self) -> (mints: bool)
        ensures
            mints == self.mints_persons(),
    {
        match self {
            ColumnRule::PersonId
            | ColumnRule::BirthDate
            | ColumnRule::Age
            | ColumnRule::FatherId
            | ColumnRule::MotherId
            | ColumnRule::GenderOfPerson
            | ColumnRule::CivilStatus
            | ColumnRule::SpouseId
            | ColumnRule::PatientId
            | ColumnRule::ContactOfPerson => true,
            _ => false,
        }
    }

    /// Whether a value is the identifier of a contact, for which a
    /// sequence number may be given out.
    pub open spec fn spec_mints_contacts(&self) -> bool {
        match self {
            ColumnRule::ContactOfPerson | ColumnRule::NewContact => true,
            _ => false,
        }
    }

    /// Whether a value is the identifier of a contact, for which a
    /// sequence number may be given out.
    #[verifier::when_used_as_spec(spec_mints_contacts)]
    pub fn mints_contacts(&self) -> (mints: bool)
        ensures
            mints == self.mints_contacts(),
    {
        match self {
            ColumnRule::ContactOfPerson | ColumnRule::NewContact => true,
            _ => false,
        }
    }
}

/// A table of rules by column name.
pub type RuleTable = Seq<(Seq<char>, ColumnRule)>;

/// The rule of the first entry of `table` with the name `name`.
pub open spec fn rule_in(table: RuleTable, name: Seq<char>) -> Option<ColumnRule>
    decreases table.len(),
{
    if table.len() == 0 {
        None
    } else if table[0].0 == name {
        Some(table[0].1)
    } else {
        rule_in(table.skip(1), name)
    }
}

/// A table as a sequence of names and rules.
pub open spec fn table_of(entries: Seq<(&'static str, ColumnRule)>) -> RuleTable {
    entries.map_values(|entry: (&'static str, ColumnRule)| (entry.0@, entry.1))
}

/// Whether two texts are the same.
pub fn same_text(a: &str, b: &str) -> (same: bool)
    ensures
        same == (a@ == b@),
{
    a.to_owned() == b.to_owned()
}

/// Looks a column up in a table of rules.
pub fn find_rule(entries: &Vec<(&'static str, ColumnRule)>, name: &str) -> (rule: Option<
    ColumnRule,
>)
    ensures
        rule == rule_in(table_of(entries@), name@),
{
    let ghost table = table_of(entries@);
    let mut at: usize = 0;
    assert(table.skip(0) =~= table);
    while at < entries.len()
        invariant
            at <= entries@.len(),
            table == table_of(entries@),
            rule_in(table, name@) == rule_in(table.skip(at as int), name@),
        decreases entries@.len() - at,
    {
        assert(table.skip(at as int)[0] == table[at as int]);
        assert(table.skip(at as int).skip(1) =~= table.skip(at + 1));
        if same_text(entries[at].0, name) {
            return Some(entries[at].1);
        }
        at = at + 1;
    }
    None
}

impl Choices {
    /// The texts of the list.
    pub open spec fn texts(self) -> Seq<Seq<char>> {
        match self {
            Choices::DiagnosisType => seq!["A"@, "B"@, "H"@, "M"@, "G"@],
            Choices::LetterCode => seq!["A"@, "B"@, "C"@, "D"@, "E"@],
            Choices::PatientType => seq!["0"@, "1"@, "2"@, "3"@],
            Choices::CheckMark => seq!["V"@, "U"@],
            Choices::CprType => seq!["A"@, "B"@, "C"@, "D"@, "E"@, "F"@],
            Choices::ContactCode => seq!["ALCA00"@, "ALCA10"@, "ALCA20"@, "ALCA30"@, "ALCA40"@],
            Choices::Priority => seq!["ATA1"@, "ATA2"@, "ATA3"@],
            Choices::ContactSystem => seq!["PAS"@, "OPUS"@, "COSMIC"@, "EPJ"@, "MidtEPJ"@],
            Choices::DiagnosisSystem => seq!["LPR3"@, "OPUS"@, "COSMIC"@, "EPJ"@, "MidtEPJ"@],
            Choices::Position => seq![
                "01"@, "02"@, "03"@, "04"@, "05"@, "11"@, "12"@, "13"@, "14"@, "19"@, "20"@, "31"@,
                "32"@, "33"@, "34"@, "35"@, "36"@, "37"@, "40"@, "41"@, "42"@, "43"@, "45"@, "46"@,
                "47"@, "48"@, "49"@, "50"@, "51"@, "52"@, "55"@, "71"@, "72"@, "73"@, "74"@, "75"@,
                "76"@, "77"@, "90"@, "91"@, "92"@, "93"@, "94"@, "95"@, "96"@, "97"@, "98"@,
            ],
        }
    }

    /// The texts of the list.
    pub fn list(&self) -> (list: Vec<&'static str>)
        ensures
            list@.map_values(|text: &'static str| text@) == self.texts(),
    {
        let list = match self {
            Choices::DiagnosisType => vec!["A", "B", "H", "M", "G"],
            Choices::LetterCode => vec!["A", "B", "C", "D", "E"],
            Choices::PatientType => vec!["0", "1", "2", "3"],
            Choices::CheckMark => vec!["V", "U"],
            Choices::CprType => vec!["A", "B", "C", "D", "E", "F"],
            Choices::ContactCode => vec!["ALCA00", "ALCA10", "ALCA20", "ALCA30", "ALCA40"],
            Choices::Priority => vec!["ATA1", "ATA2", "ATA3"],
            Choices::ContactSystem => vec!["PAS", "OPUS", "COSMIC", "EPJ", "MidtEPJ"],
            Choices::DiagnosisSystem => vec!["LPR3", "OPUS", "COSMIC", "EPJ", "MidtEPJ"],
            Choices::Position => vec![
                "01", "02", "03", "04", "05", "11", "12", "13", "14", "19", "20", "31", "32", "33",
                "34", "35", "36", "37", "40", "41", "42", "43", "45", "46", "47", "48", "49", "50",
                "51", "52", "55", "71", "72", "73", "74", "75", "76", "77", "90", "91", "92", "93",
                "94", "95", "96", "97", "98",
            ],
        };
        assert(list@.map_values(|text: &'static str| text@) =~= self.texts());
        list
    }
}

impl Mapping {
    /// The size of the codes of the mapping.
    pub fn width(&self) -> (width: NumberWidth)
        ensures
            width == self.spec_width(),
    {
        match self {
            Mapping::Socio13 => NumberWidth::I32,
            Mapping::FmMark => NumberWidth::I8,
            Mapping::Hustype => NumberWidth::I8,
            Mapping::Plads => NumberWidth::I8,
            Mapping::Reg => NumberWidth::I8,
            Mapping::Statsb => NumberWidth::I32,
            Mapping::Jobkat => NumberWidth::I8,
            Mapping::Tilknyt => NumberWidth::I8,
            Mapping::PreSocio => NumberWidth::I32,
            Mapping::Beskst13 => NumberWidth::I32,
        }
    }

    /// The size of the codes of the mapping.
    pub open spec fn spec_width(self) -> NumberWidth {
        match self {
            Mapping::Socio13 => NumberWidth::I32,
            Mapping::FmMark => NumberWidth::I8,
            Mapping::Hustype => NumberWidth::I8,
            Mapping::Plads => NumberWidth::I8,
            Mapping::Reg => NumberWidth::I8,
            Mapping::Statsb => NumberWidth::I32,
            Mapping::Jobkat => NumberWidth::I8,
            Mapping::Tilknyt => NumberWidth::I8,
            Mapping::PreSocio => NumberWidth::I32,
            Mapping::Beskst13 => NumberWidth::I32,
        }
    }
}

impl NumberWidth {
    /// The least number of the size.
    pub open spec fn min(self) -> int {
        match self {
            NumberWidth::I8 => -128,
            NumberWidth::I16 => -32_768,
            NumberWidth::I32 => -2_147_483_648,
        }
    }

    /// The greatest number of the size.
    pub open spec fn max(self) -> int {
        match self {
            NumberWidth::I8 => 127,
            NumberWidth::I16 => 32_767,
            NumberWidth::I32 => 2_147_483_647,
        }
    }
}

} // verus!
