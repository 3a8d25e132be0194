use crate::date::{Date, DateFormat, MAX_YEAR, MIN_YEAR};
use crate::generate::mappings::Mappings;
use crate::generate::pnr::{get_parents_pnr, get_pnr_for_birth_date, PnrPool};
use crate::generate::pnr_codec::{
    lemma_last_digit_encodes_gender, lemma_person_id_text_round_trip, lemma_person_id_text_tail,
    lemma_person_number_bound, person_id_text, person_number_of_text, Gender,
};
use crate::generate::pnr_model::{
    is_link_text, parents_resolved, pnr_created, pool_grown, Person, PnrPoolView,
};
use crate::generate::recnum::{
    contact_id_text, contact_obtained, generate_recnum, get_recnum_for_pnr, RecnumPool,
    RecnumPoolView,
};
use crate::generate::utils::{get_random_diagnosis, is_diagnosis};
use crate::random::{random_in_range, random_ratio};
use crate::registers::rule::{ColumnRule, NumberWidth};
use crate::registers::values::{
    civil_status_codes, gender_code, gender_code_of, is_date_between, is_padded_number,
    is_time_of_day, label_for, label_of, random_choice, random_civil_status, random_code,
    random_date_between, random_flag, random_padded_number, random_time, spouse_chance,
    spouse_tenths,
};
use crate::text::{digit_value, lemma_digit_round_trip, push_char};
use vstd::pervasive::unreached;
use vstd::prelude::*;

verus! {

/// One value of a column.
#[derive(Debug)]
pub enum Cell {
    Text(String),
    /// A text that may be missing.
    OptionalText(Option<String>),
    Number(i32),
}

impl Cell {
    /// The text of the cell; empty for a cell that holds no text.
    pub open spec fn text(self) -> Seq<char> {
        match self {
            Cell::Text(text) => text@,
            Cell::OptionalText(Some(text)) => text@,
            _ => Seq::empty(),
        }
    }
}

/// Whether persons can be minted for the rows of `year`: the birth years
/// of the persons, of their spouses, of their parents and of the parents
/// of these are years that dates can carry, and so are the birth years of
/// parents of everybody in the pool.
pub open spec fn year_allows_persons(year: int, persons: PnrPoolView) -> bool {
    &&& MIN_YEAR + 105 + 2 * persons.max_parent_age <= year <= MAX_YEAR - 5
    &&& MIN_YEAR + persons.max_parent_age <= persons.earliest
}

/// Whether persons can be minted in `persons` for the rows of `year`.
pub fn allows_persons(persons: &PnrPool, year: i32) -> (allowed: bool)
    ensures
        allowed == year_allows_persons(year as int, persons@),
{
    let max_age: i64 = persons.max_parent_age() as i64;
    MIN_YEAR as i64 + 105 + 2 * max_age <= year as i64 && year as i64 <= MAX_YEAR as i64 - 5
        && MIN_YEAR as i64 + max_age <= persons.earliest_birth_year() as i64
}

/// The earliest year in which a person may be born who is put into the
/// pool for a row of `year`.
pub open spec fn earliest_birth_year(year: int, persons: PnrPoolView) -> int {
    year - 105 - persons.max_parent_age
}

/// `after` is `before` once a person was minted under `id` for a row of
/// `year`: born on `birth_date`, one of the first 28 days of a month of a
/// year from `year - span` to `year`.
pub open spec fn row_person_minted(
    before: PnrPoolView,
    year: int,
    span: int,
    birth_date: Date,
    id: u64,
    after: PnrPoolView,
) -> bool {
    &&& year - span <= birth_date.year() <= year
    &&& birth_date.is_random_day_of(birth_date.year() as int)
    &&& pnr_created(before, birth_date, id, after)
    &&& after.persons.contains_key(id)
}

/// Mints a person for a row of `year`, born on a random day of one of the
/// hundred and one years up to `year`. Returns the birth date and the text
/// of the identifier.
pub fn generate_birth_date_and_pnr(persons: &mut PnrPool, year: i32) -> (minted: (Date, String))
    requires
        old(persons).wf(),
        year_allows_persons(year as int, old(persons)@),
    ensures
        final(persons).wf(),
        exists|id: u64|
            minted.1@ == person_id_text(id as int) && #[trigger] row_person_minted(
                old(persons)@,
                year as int,
                100,
                minted.0,
                id,
                final(persons)@,
            ),
        pool_grown(old(persons)@, final(persons)@),
        final(persons)@.holds_text(minted.1@),
        old(persons)@.keeps_earliest(
            final(persons)@,
            earliest_birth_year(year as int, old(persons)@),
        ),
{
    let birth_year: i32 = random_in_range(year - 100, year + 1);
    let birth_date = Date::random_in_year(birth_year);
    let pnr = get_pnr_for_birth_date(persons, birth_date);
    proof {
        let id = choose|id: u64|
            pnr@ == person_id_text(id as int) && persons@.persons.contains_key(id)
                && #[trigger] pnr_created(old(persons)@, birth_date, id, persons@);
        assert(row_person_minted(old(persons)@, year as int, 100, birth_date, id, persons@));
    }
    let minted = (birth_date, pnr);
    assert(minted.0 == birth_date);
    minted
}

/// Mints a patient for a row of `year`, born on a random day of one of the
/// hundred years up to `year`. Returns the text of the identifier.
pub fn generate_patient_pnr(persons: &mut PnrPool, year: i32) -> (pnr: String)
    requires
        old(persons).wf(),
        year_allows_persons(year as int, old(persons)@),
    ensures
        final(persons).wf(),
        exists|birth_date: Date, id: u64|
            pnr@ == person_id_text(id as int) && #[trigger] row_person_minted(
                old(persons)@,
                year as int,
                99,
                birth_date,
                id,
                final(persons)@,
            ),
        pool_grown(old(persons)@, final(persons)@),
        final(persons)@.holds_text(pnr@),
        old(persons)@.keeps_earliest(
            final(persons)@,
            earliest_birth_year(year as int, old(persons)@),
        ),
{
    let birth_year: i32 = year - random_in_range(0, 100);
    let birth_date = Date::random_in_year(birth_year);
    let pnr = get_pnr_for_birth_date(persons, birth_date);
    proof {
        let id = choose|id: u64|
            pnr@ == person_id_text(id as int) && persons@.persons.contains_key(id)
                && #[trigger] pnr_created(old(persons)@, birth_date, id, persons@);
        assert(row_person_minted(old(persons)@, year as int, 99, birth_date, id, persons@));
    }
    pnr
}

/// `after` is `before` once a spouse was drawn for a person of the given
/// age in `year`: the pool is unchanged where there is none; else a person
/// was minted, born on one of the first 28 days of a month of a year
/// within five years of the person's birth year, and `spouse` is the text
/// of its identifier.
pub open spec fn spouse_minted(
    before: PnrPoolView,
    year: int,
    age: int,
    spouse: Option<String>,
    after: PnrPoolView,
) -> bool {
    match spouse {
        None => after == before,
        Some(text) => exists|birth_date: Date, id: u64|
            #![trigger pnr_created(before, birth_date, id, after)]
            {
                &&& year - age - 5 <= birth_date.year() <= year - age + 5
                &&& birth_date.is_random_day_of(birth_date.year() as int)
                &&& pnr_created(before, birth_date, id, after)
                &&& after.persons.contains_key(id)
                &&& text@ == person_id_text(id as int)
            },
    }
}

/// The identifier of a spouse for a person of the given age in `year`,
/// where the person has one. Whether it has one is drawn with the chance
/// of the age; what follows from the draw is what `spouse_for` says.
/// Nobody has a spouse at an age whose chance is none.
pub fn random_spouse(persons: &mut PnrPool, year: i32, age: i32) -> (spouse: Option<String>)
    requires
        old(persons).wf(),
        year_allows_persons(year as int, old(persons)@),
        0 <= age <= 100,
    ensures
        final(persons).wf(),
        spouse_minted(old(persons)@, year as int, age as int, spouse, final(persons)@),
        spouse_tenths(age as int) == 0 ==> spouse is None,
        pool_grown(old(persons)@, final(persons)@),
        spouse matches Some(text) ==> final(persons)@.holds_text(text@),
        old(persons)@.keeps_earliest(
            final(persons)@,
            earliest_birth_year(year as int, old(persons)@),
        ),
{
    let has_spouse = random_ratio(spouse_chance(age), 10);
    spouse_for(persons, year, age, has_spouse)
}

/// The identifier of a spouse for a person of the given age in `year`, once
/// it was drawn whether the person has one. A person who has a spouse gets
/// a person minted for it, born on a random day of a year within five years
/// of the person's birth year; for a person who has none, nobody is minted
/// and the pool stays as it is.
pub fn spouse_for(persons: &mut PnrPool, year: i32, age: i32, has_spouse: bool) -> (spouse: Option<
    String,
>)
    requires
        old(persons).wf(),
        year_allows_persons(year as int, old(persons)@),
        0 <= age <= 100,
    ensures
        final(persons).wf(),
        spouse is Some <==> has_spouse,
        spouse_minted(old(persons)@, year as int, age as int, spouse, final(persons)@),
        pool_grown(old(persons)@, final(persons)@),
        spouse matches Some(text) ==> final(persons)@.holds_text(text@),
        old(persons)@.keeps_earliest(
            final(persons)@,
            earliest_birth_year(year as int, old(persons)@),
        ),
{
    if has_spouse {
        let birth_year: i32 = year - age - random_in_range(-5, 6);
        let birth_date = Date::random_in_year(birth_year);
        let pnr = get_pnr_for_birth_date(persons, birth_date);
        Some(pnr)
    } else {
        None
    }
}

/// `after` is `before` once a person was minted for a row of `year` and
/// its parents were resolved to the persons whose identifiers have the
/// texts `mother` and `father`.
pub open spec fn parents_minted(
    before: PnrPoolView,
    year: int,
    mother: Seq<char>,
    father: Seq<char>,
    after: PnrPoolView,
) -> bool {
    exists|birth_date: Date, id: u64, between: PnrPoolView, mother_id: u64, father_id: u64|
        #![trigger
            row_person_minted(before, year, 100, birth_date, id, between),
            parents_resolved(between, id, (Some(mother_id), Some(father_id)), after)]
        row_person_minted(before, year, 100, birth_date, id, between) && parents_resolved(
            between,
            id,
            (Some(mother_id), Some(father_id)),
            after,
        ) && mother == person_id_text(mother_id as int) && father == person_id_text(
            father_id as int,
        )
}

/// Mints a person for a row of `year` and resolves its parents. Returns the
/// texts of the identifiers of the parents, mother first.
pub fn generate_parents(persons: &mut PnrPool, year: i32) -> (parents: (String, String))
    requires
        old(persons).wf(),
        year_allows_persons(year as int, old(persons)@),
    ensures
        final(persons).wf(),
        parents_minted(old(persons)@, year as int, parents.0@, parents.1@, final(persons)@),
        pool_grown(old(persons)@, final(persons)@),
        final(persons)@.holds_text(parents.0@),
        final(persons)@.holds_text(parents.1@),
{
    let (birth_date, pnr) = generate_birth_date_and_pnr(persons, year);
    let ghost between = persons@;
    let ghost id = choose|id: u64|
        pnr@ == person_id_text(id as int) && #[trigger] row_person_minted(
            old(persons)@,
            year as int,
            100,
            birth_date,
            id,
            between,
        );
    proof {
        let person = between.persons[id];
        lemma_person_number_bound(id as int, person.birth_date, person.gender);
        lemma_person_id_text_round_trip(id as int);
        assert(person_number_of_text(pnr@) == Some(id as int));
        assert(between.can_resolve_parents(id));
    }
    let parents = get_parents_pnr(persons, pnr.as_str());
    match parents {
        (Some(mother), Some(father)) => {
            proof {
                let links = choose|links: (Option<u64>, Option<u64>)|
                    #[trigger] parents_resolved(between, id, links, persons@) && is_link_text(
                        Some(mother),
                        links.0,
                    ) && is_link_text(Some(father), links.1);
                assert(links == (Some(links.0->0), Some(links.1->0)));
                assert(row_person_minted(old(persons)@, year as int, 100, birth_date, id, between));
                assert(parents_resolved(
                    between,
                    id,
                    (Some(links.0->0), Some(links.1->0)),
                    persons@,
                ));
            }
            let found = (mother, father);
            assert(found.0@ == mother@ && found.1@ == father@);
            found
        },
        _ => unreached(),
    }
}

/// Whether values can be made by `rule` for rows of `year` with the given
/// mappings and pools: a range that values are drawn from is not empty
/// and fits the size of the numbers of the column, a chance is at most
/// one, a mapping that codes are drawn from has codes, a
/// day is drawn from a year that dates can carry, persons can be minted
/// where the rule mints them, and a sequence number is left where the rule
/// may give one out. Amounts are not made here.
pub open spec fn rule_can_run(
    rule: ColumnRule,
    year: int,
    mappings: Mappings,
    persons: PnrPoolView,
    contacts: RecnumPoolView,
) -> bool {
    &&& rule.mints_persons() ==> year_allows_persons(year, persons)
    &&& rule.mints_contacts() ==> contacts.next_recnum < u64::MAX
    &&& match rule {
        ColumnRule::PaddedNumber { low, high, width } => low < high <= i32::MAX,
        ColumnRule::Number { first, end, size } => size.min() <= first < end <= size.max()
            + 1,
        ColumnRule::Amount { from, below } => false,
        ColumnRule::Flag { numerator, denominator, yes, no } => 0 < denominator && numerator
            <= denominator,
        ColumnRule::MappingKey(mapping) => mappings.codes(mapping).len() > 0,
        ColumnRule::Diagnosis => mappings.scd@.len() > 0,
        ColumnRule::DateInYear(format) => MIN_YEAR <= year <= MAX_YEAR,
        ColumnRule::DateBetween { first_year, end_year, format } => MIN_YEAR <= first_year
            < end_year <= MAX_YEAR + 1,
        _ => true,
    }
}

/// Whether values can be made by `rule` for rows of `year` with the given
/// mappings and pools.
pub fn can_run(
    rule: ColumnRule,
    year: i32,
    mappings: &Mappings,
    persons: &PnrPool,
    contacts: &RecnumPool,
) -> (possible: bool)
    ensures
        possible == rule_can_run(rule, year as int, *mappings, persons@, contacts@),
{
    if rule.mints_persons() && !allows_persons(persons, year) {
        return false;
    }
    if rule.mints_contacts() && contacts.next_recnum() == u64::MAX {
        return false;
    }
    match rule {
        ColumnRule::PaddedNumber { low, high, width } => low < high && high <= 2_147_483_647,
        ColumnRule::Number { first, end, size } => {
            let (least, greatest): (i32, i32) = match size {
                NumberWidth::I8 => (-128, 127),
                NumberWidth::I16 => (-32_768, 32_767),
                NumberWidth::I32 => (-2_147_483_648, 2_147_483_647),
            };
            least <= first && first < end && end as i64 <= greatest as i64 + 1
        },
        ColumnRule::Amount { from, below } => false,
        ColumnRule::Flag { numerator, denominator, yes, no } => 0 < denominator && numerator
            <= denominator,
        ColumnRule::MappingKey(mapping) => mappings.keys(mapping).len() > 0,
        ColumnRule::Diagnosis => mappings.scd.len() > 0,
        ColumnRule::DateInYear(format) => MIN_YEAR <= year && year <= MAX_YEAR,
        ColumnRule::DateBetween { first_year, end_year, format } => MIN_YEAR <= first_year
            && first_year < end_year && end_year <= MAX_YEAR + 1,
        _ => true,
    }
}

/// Whether `cell` is a value that `rule` may give for a row of `year`, for
/// the rules that mint neither persons nor contacts.
pub open spec fn cell_fits(rule: ColumnRule, cell: Cell, year: int, mappings: Mappings) -> bool {
    match rule {
        ColumnRule::PaddedNumber { low, high, width } => cell matches Cell::Text(text)
            && is_padded_number(text@, low as int, high as int, width as nat),
        ColumnRule::Number { first, end, size } => cell matches Cell::Number(number) && first
            <= number < end,
        ColumnRule::Choice(choices) => cell matches Cell::Text(text) && choices.texts().contains(
            text@,
        ),
        ColumnRule::Flag { numerator, denominator, yes, no } => cell matches Cell::Text(text) && (
        text@ == seq![yes] || text@ == seq![no]) && (numerator == 0 ==> text@ == seq![no]) && (
        numerator == denominator ==> text@ == seq![yes]),
        ColumnRule::MappingKey(mapping) => cell matches Cell::Number(number) && mappings.codes(
            mapping,
        ).contains(number),
        ColumnRule::Diagnosis => cell matches Cell::Text(text) && is_diagnosis(
            text@,
            mappings.scd@,
        ),
        ColumnRule::DateInYear(format) => cell matches Cell::Text(text) && is_date_between(
            text@,
            year,
            year + 1,
            format,
        ),
        ColumnRule::DateBetween { first_year, end_year, format } => cell matches Cell::Text(text)
            && is_date_between(text@, first_year as int, end_year as int, format),
        ColumnRule::TimeOfDay => cell matches Cell::Text(text) && is_time_of_day(text@),
        _ => false,
    }
}

/// Whether `cell` is what is made of a person minted for a row of `year`
/// on `birth_date` under `id`, for the rules that give something of such a
/// person: the identifier, the birth date, the age in `year`, the gender
/// read off the identifier, or the label of a code of civil status that a
/// person of that age may have.
pub open spec fn cell_of_person(
    rule: ColumnRule,
    cell: Cell,
    year: int,
    mappings: Mappings,
    birth_date: Date,
    id: u64,
) -> bool {
    match rule {
        ColumnRule::PersonId => cell matches Cell::Text(text) && text@ == person_id_text(
            id as int,
        ),
        ColumnRule::BirthDate => cell matches Cell::Text(text) && text@ == birth_date.text(
            DateFormat::Iso,
        ),
        ColumnRule::Age => cell matches Cell::Number(number) && number == year
            - birth_date.year(),
        ColumnRule::GenderOfPerson => cell matches Cell::Text(text) && text@ == seq![
            gender_code_of(person_id_text(id as int)),
        ],
        ColumnRule::CivilStatus => cell matches Cell::Text(text) && exists|i: int|
            0 <= i < civil_status_codes(year - birth_date.year()).len() && text@ == label_of(
                mappings.civst@,
                #[trigger] civil_status_codes(year - birth_date.year())[i],
            ),
        _ => false,
    }
}

/// Whether `cell` was made by `rule` for a row of `year`, with the pools
/// of persons and of contacts going from `persons_before` and
/// `contacts_before` to `persons_after` and `contacts_after`.
///
/// A rule that mints neither persons nor contacts leaves both pools as they
/// are. A rule that gives something of a person mints one person. The
/// parents are those of a person minted for the row. A spouse is drawn for
/// the second of two persons minted for the row. The contact of a person
/// is obtained for a person minted for the row; the contact of nobody is
/// the next sequence number.
pub open spec fn cell_made(
    rule: ColumnRule,
    cell: Cell,
    year: int,
    mappings: Mappings,
    persons_before: PnrPoolView,
    persons_after: PnrPoolView,
    contacts_before: RecnumPoolView,
    contacts_after: RecnumPoolView,
) -> bool {
    match rule {
        ColumnRule::Amount { from, below } => false,
        ColumnRule::PersonId
        | ColumnRule::BirthDate
        | ColumnRule::Age
        | ColumnRule::GenderOfPerson
        | ColumnRule::CivilStatus => contacts_after == contacts_before && exists|
            birth_date: Date,
            id: u64,
        |
            #[trigger] row_person_minted(persons_before, year, 100, birth_date, id, persons_after)
                && cell_of_person(rule, cell, year, mappings, birth_date, id),
        ColumnRule::PatientId => {
            &&& contacts_after == contacts_before
            &&& cell matches Cell::Text(text) && exists|birth_date: Date, id: u64|
                #[trigger] row_person_minted(
                    persons_before,
                    year,
                    99,
                    birth_date,
                    id,
                    persons_after,
                ) && text@ == person_id_text(id as int)
        },
        ColumnRule::MotherId => {
            &&& contacts_after == contacts_before
            &&& cell matches Cell::OptionalText(Some(text)) && exists|father: Seq<char>|
                #[trigger] parents_minted(persons_before, year, text@, father, persons_after)
        },
        ColumnRule::FatherId => {
            &&& contacts_after == contacts_before
            &&& cell matches Cell::OptionalText(Some(text)) && exists|mother: Seq<char>|
                #[trigger] parents_minted(persons_before, year, mother, text@, persons_after)
        },
        ColumnRule::SpouseId => {
            &&& contacts_after == contacts_before
            &&& cell matches Cell::OptionalText(spouse) && exists|
            first_date: Date,
            first_id: u64,
            first: PnrPoolView,
            second_date: Date,
            second_id: u64,
            second: PnrPoolView,
        |
            #![trigger
                row_person_minted(persons_before, year, 100, first_date, first_id, first),
                row_person_minted(first, year, 100, second_date, second_id, second)]
            row_person_minted(persons_before, year, 100, first_date, first_id, first)
                && row_person_minted(first, year, 100, second_date, second_id, second)
                && spouse_minted(
                second,
                year,
                year - second_date.year(),
                spouse,
                persons_after,
            )
        },
        ColumnRule::ContactOfPerson => cell matches Cell::Text(text) && exists|
            birth_date: Date,
            id: u64,
            contact: u64,
        |
            #![trigger
                row_person_minted(persons_before, year, 100, birth_date, id, persons_after),
                contact_id_text(contact as int)]
            row_person_minted(persons_before, year, 100, birth_date, id, persons_after)
                && contact_obtained(
                contacts_before,
                person_id_text(id as int),
                year,
                contact,
                contacts_after,
            ) && text@ == contact_id_text(contact as int),
        ColumnRule::NewContact => {
            &&& persons_after == persons_before
            &&& contacts_after == contacts_before.with_unlinked()
            &&& cell matches Cell::Text(text) && text@ == contact_id_text(
                contacts_before.next_recnum as int,
            )
        },
        _ => persons_after == persons_before && contacts_after == contacts_before && cell_fits(
            rule,
            cell,
            year,
            mappings,
        ),
    }
}

/// Makes a value of a person minted for a row of `year`.
fn person_cell(rule: ColumnRule, year: i32, mappings: &Mappings, persons: &mut PnrPool) -> (cell:
    Cell)
    requires
        rule is PersonId || rule is BirthDate || rule is Age || rule is GenderOfPerson
            || rule is CivilStatus,
        old(persons).wf(),
        year_allows_persons(year as int, old(persons)@),
    ensures
        final(persons).wf(),
        pool_grown(old(persons)@, final(persons)@),
        exists|birth_date: Date, id: u64|
            #[trigger] row_person_minted(
                old(persons)@,
                year as int,
                100,
                birth_date,
                id,
                final(persons)@,
            ) && cell_of_person(rule, cell, year as int, *mappings, birth_date, id),
{
    let (birth_date, pnr) = generate_birth_date_and_pnr(persons, year);
    let ghost id = choose|id: u64|
        pnr@ == person_id_text(id as int) && #[trigger] row_person_minted(
            old(persons)@,
            year as int,
            100,
            birth_date,
            id,
            persons@,
        );
    let cell = match rule {
        ColumnRule::PersonId => Cell::Text(pnr),
        ColumnRule::BirthDate => Cell::Text(birth_date.format(DateFormat::Iso)),
        ColumnRule::Age => Cell::Number(year - birth_date.year()),
        ColumnRule::GenderOfPerson => {
            proof {
                lemma_person_ends_in_digit(pnr@, persons@);
            }
            let mut text = String::new();
            push_char(&mut text, gender_code(pnr.as_str()));
            assert(text@ =~= seq![gender_code_of(pnr@)]);
            Cell::Text(text)
        },
        _ => {
            let age: i32 = year - birth_date.year();
            let code = random_civil_status(age);
            proof {
                let i = choose|i: int|
                    0 <= i < civil_status_codes(age as int).len() && civil_status_codes(
                        age as int,
                    )[i] == code@;
                assert(civil_status_codes(age as int)[i] == code@);
            }
            Cell::Text(label_for(&mappings.civst, code))
        },
    };
    assert(cell_of_person(rule, cell, year as int, *mappings, birth_date, id));
    cell
}

/// Makes one value by `rule` for a row of `year`. Persons are minted in
/// `persons` and contacts in `contacts` where the rule asks for them.
pub fn generate_cell(
    rule: ColumnRule,
    year: i32,
    mappings: &Mappings,
    persons: &mut PnrPool,
    contacts: &mut RecnumPool,
) -> (cell: Cell)
    requires
        old(persons).wf(),
        old(contacts).wf(),
        rule_can_run(rule, year as int, *mappings, old(persons)@, old(contacts)@),
    ensures
        final(persons).wf(),
        final(contacts).wf(),
        pool_grown(old(persons)@, final(persons)@),
        cell_made(
            rule,
            cell,
            year as int,
            *mappings,
            old(persons)@,
            final(persons)@,
            old(contacts)@,
            final(contacts)@,
        ),
{
    let cell = match rule {
        ColumnRule::PaddedNumber { low, high, width } => Cell::Text(
            random_padded_number(low, high, width),
        ),
        ColumnRule::Number { first, end, size } => Cell::Number(random_in_range(first, end)),
        ColumnRule::Amount { from, below } => unreached(),
        ColumnRule::Choice(choices) => Cell::Text(random_choice(choices)),
        ColumnRule::Flag { numerator, denominator, yes, no } => Cell::Text(
            random_flag(numerator, denominator, yes, no),
        ),
        ColumnRule::MappingKey(mapping) => Cell::Number(random_code(mappings.keys(mapping))),
        ColumnRule::Diagnosis => Cell::Text(get_random_diagnosis(&mappings.scd)),
        ColumnRule::DateInYear(format) => Cell::Text(random_date_between(year, year + 1, format)),
        ColumnRule::DateBetween { first_year, end_year, format } => Cell::Text(
            random_date_between(first_year, end_year, format),
        ),
        ColumnRule::TimeOfDay => Cell::Text(random_time()),
        ColumnRule::PersonId
        | ColumnRule::BirthDate
        | ColumnRule::Age
        | ColumnRule::GenderOfPerson
        | ColumnRule::CivilStatus => person_cell(rule, year, mappings, persons),
        ColumnRule::FatherId => {
            let parents = generate_parents(persons, year);
            let ghost mother = parents.0@;
            let cell = Cell::OptionalText(Some(parents.1));
            assert(parents_minted(old(persons)@, year as int, mother, cell.text(), persons@));
            cell
        },
        ColumnRule::MotherId => {
            let parents = generate_parents(persons, year);
            let ghost father = parents.1@;
            let cell = Cell::OptionalText(Some(parents.0));
            assert(parents_minted(old(persons)@, year as int, cell.text(), father, persons@));
            cell
        },
        ColumnRule::SpouseId => spouse_cell(year, persons),
        ColumnRule::PatientId => Cell::Text(generate_patient_pnr(persons, year)),
        ColumnRule::ContactOfPerson => contact_cell(year, persons, contacts),
        ColumnRule::NewContact => Cell::Text(generate_recnum(contacts)),
    };
    cell
}

/// Mints two persons for a row of `year` and draws a spouse for the second.
fn spouse_cell(year: i32, persons: &mut PnrPool) -> (cell: Cell)
    requires
        old(persons).wf(),
        year_allows_persons(year as int, old(persons)@),
    ensures
        final(persons).wf(),
        pool_grown(old(persons)@, final(persons)@),
        cell matches Cell::OptionalText(spouse) && exists|
            first_date: Date,
            first_id: u64,
            first: PnrPoolView,
            second_date: Date,
            second_id: u64,
            second: PnrPoolView,
        |
            #![trigger
                row_person_minted(old(persons)@, year as int, 100, first_date, first_id, first),
                row_person_minted(first, year as int, 100, second_date, second_id, second)]
            row_person_minted(old(persons)@, year as int, 100, first_date, first_id, first)
                && row_person_minted(first, year as int, 100, second_date, second_id, second)
                && spouse_minted(
                second,
                year as int,
                year - second_date.year(),
                spouse,
                final(persons)@,
            ),
{
    let (first_date, first_pnr) = generate_birth_date_and_pnr(persons, year);
    let ghost first = persons@;
    let ghost first_id = choose|id: u64|
        first_pnr@ == person_id_text(id as int) && #[trigger] row_person_minted(
            old(persons)@,
            year as int,
            100,
            first_date,
            id,
            first,
        );
    assert(year_allows_persons(year as int, first));
    let (second_date, second_pnr) = generate_birth_date_and_pnr(persons, year);
    let ghost second = persons@;
    let ghost second_id = choose|id: u64|
        second_pnr@ == person_id_text(id as int) && #[trigger] row_person_minted(
            first,
            year as int,
            100,
            second_date,
            id,
            second,
        );
    assert(year_allows_persons(year as int, second));
    let age: i32 = year - second_date.year();
    let spouse = random_spouse(persons, year, age);
    proof {
        assert(row_person_minted(old(persons)@, year as int, 100, first_date, first_id, first));
        assert(row_person_minted(first, year as int, 100, second_date, second_id, second));
        assert(spouse_minted(second, year as int, year - second_date.year(), spouse, persons@));
    }
    Cell::OptionalText(spouse)
}

/// Mints a person for a row of `year` and obtains a contact for it.
fn contact_cell(year: i32, persons: &mut PnrPool, contacts: &mut RecnumPool) -> (cell: Cell)
    requires
        old(persons).wf(),
        old(contacts).wf(),
        year_allows_persons(year as int, old(persons)@),
        old(contacts)@.next_recnum < u64::MAX,
    ensures
        final(persons).wf(),
        final(contacts).wf(),
        pool_grown(old(persons)@, final(persons)@),
        cell_made(
            ColumnRule::ContactOfPerson,
            cell,
            year as int,
            arbitrary(),
            old(persons)@,
            final(persons)@,
            old(contacts)@,
            final(contacts)@,
        ),
{
    let (birth_date, pnr) = generate_birth_date_and_pnr(persons, year);
    let ghost id = choose|id: u64|
        pnr@ == person_id_text(id as int) && #[trigger] row_person_minted(
            old(persons)@,
            year as int,
            100,
            birth_date,
            id,
            persons@,
        );
    let recnum = get_recnum_for_pnr(contacts, pnr.as_str(), year);
    proof {
        let contact = choose|contact: u64|
            recnum@ == contact_id_text(contact as int) && #[trigger] contact_obtained(
                old(contacts)@,
                pnr@,
                year as int,
                contact,
                contacts@,
            );
        assert(row_person_minted(old(persons)@, year as int, 100, birth_date, id, persons@));
        assert(recnum@ == contact_id_text(contact as int));
    }
    Cell::Text(recnum)
}

/// The gender that is read off the text of a person's identifier is the
/// gender of the person: the identifier keeps the gender that it was made
/// for.
pub proof fn lemma_gender_code_round_trip(person: Person)
    requires
        person.wf(),
    ensures
        gender_code_of(person_id_text(person.id as int)) == (match person.gender {
            Gender::Male => 'M',
            Gender::Female => 'K',
        }),
{
    lemma_last_digit_encodes_gender(person.id as int, person.birth_date, person.gender);
    lemma_person_number_bound(person.id as int, person.birth_date, person.gender);
    lemma_digit_round_trip((person.id % 10) as int);
}

/// The identifier of a person of a pool ends in a digit.
pub proof fn lemma_person_ends_in_digit(text: Seq<char>, persons: PnrPoolView)
    requires
        persons.wf(),
        persons.holds_text(text),
    ensures
        text.len() == 11,
        digit_value(text.last()) is Some,
{
    let id = choose|id: u64| #[trigger]
        persons.persons.contains_key(id) && text == person_id_text(id as int);
    let person = persons.persons[id];
    lemma_person_number_bound(id as int, person.birth_date, person.gender);
    lemma_person_id_text_tail(id as int);
    lemma_digit_round_trip((id % 10) as int);
}

} // verus!
