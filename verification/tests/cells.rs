use cdef_data_generator::date::DateFormat;
use cdef_data_generator::generate::mappings::{integer_codes, Mappings};
use cdef_data_generator::generate::pnr::PnrPool;
use cdef_data_generator::generate::pnr_codec::{parse_person_id, Gender};
use cdef_data_generator::generate::recnum::RecnumPool;
use cdef_data_generator::registers::bef::bef_rules;
use cdef_data_generator::registers::cell::{
    allows_persons, can_run, generate_cell, random_spouse, spouse_for, Cell,
};
use cdef_data_generator::registers::lpr2::{lpr_adm_rules, lpr_bes_rules, lpr_diag_rules};
use cdef_data_generator::registers::lpr3::{lpr3_diagnoser_rules, lpr3_kontakter_rules};
use cdef_data_generator::registers::other::{akm_rules, idan_rules, ind_rules, uddf_rules};
use cdef_data_generator::registers::rule::{Choices, ColumnRule, Mapping, NumberWidth};
use cdef_data_generator::registers::values::{
    gender_code, label_for, random_choice, random_civil_status, random_code, random_flag,
    random_padded_number, spouse_chance,
};

fn mappings() -> Mappings {
    Mappings {
        scd: vec!["I21".to_string()],
        civst: vec![
            ("U".to_string(), "Ugift".to_string()),
            ("G".to_string(), "Gift".to_string()),
            ("F".to_string(), "Fraskilt".to_string()),
        ],
        socio13: vec![110, 120, 310],
        fm_mark: vec![1, 2],
        hustype: vec![3],
        plads: vec![4],
        reg: vec![81, 82],
        statsb: vec![5100, 5120],
        jobkat: vec![-1, 7],
        tilknyt: vec![9],
        pre_socio: vec![111],
        beskst13: vec![1, 2, 3],
    }
}

/// A pool in which the cohorts of the years around `year` count as
/// generated, so that minting a person adds that person only.
fn quiet_pool(year: i32) -> PnrPool {
    let mut pool = PnrPool::new();
    for y in (year - 110)..=(year + 5) {
        pool.generate_cohort(y, 0);
    }
    pool
}

fn make(rule: ColumnRule, m: &Mappings, persons: &mut PnrPool, contacts: &mut RecnumPool) -> Cell {
    generate_cell(rule, 2020, m, persons, contacts)
}

fn text(cell: Cell) -> String {
    match cell {
        Cell::Text(text) => text,
        other => panic!("{:?}", other),
    }
}

fn number(cell: Cell) -> i32 {
    match cell {
        Cell::Number(number) => number,
        other => panic!("{:?}", other),
    }
}

fn optional(cell: Cell) -> Option<String> {
    match cell {
        Cell::OptionalText(text) => text,
        other => panic!("{:?}", other),
    }
}

#[test]
fn padded_numbers_lie_in_their_range() {
    for _ in 0..500 {
        let version = random_padded_number(2000, 2023, 4);
        assert_eq!(version.len(), 4);
        let value: u32 = version.parse().unwrap();
        assert!((2000..2023).contains(&value));
        let spec = random_padded_number(1, 100, 3);
        assert_eq!(spec.len(), 3);
        assert!((1..100).contains(&spec.parse::<u32>().unwrap()));
        let level = random_padded_number(1, 10, 1);
        assert_eq!(level.len(), 1);
        assert_ne!(level, "0");
        let old = random_padded_number(100_000_000, 999_999_999, 10);
        assert_eq!(old.len(), 10);
        assert!(old.starts_with('0'));
    }
    assert_eq!(random_padded_number(7, 8, 3), "007");
}

#[test]
fn choices_flags_and_codes_come_from_their_lists() {
    for _ in 0..200 {
        let kind = random_choice(Choices::DiagnosisType);
        assert!(["A", "B", "H", "M", "G"].contains(&kind.as_str()));
        assert!(["ATA1", "ATA2", "ATA3"].contains(&random_choice(Choices::Priority).as_str()));
        let flag = random_flag(1, 2, 'V', 'U');
        assert!(flag == "V" || flag == "U");
        assert_eq!(random_flag(0, 10, '1', '0'), "0");
        assert_eq!(random_flag(10, 10, '1', '0'), "1");
        assert!([110, 120, 310].contains(&random_code(&vec![110, 120, 310])));
        assert_eq!(random_code(&vec![-5]), -5);
    }
}

#[test]
fn every_choice_and_code_is_drawn_sooner_or_later() {
    let mut kinds = std::collections::BTreeSet::new();
    let mut codes = std::collections::BTreeSet::new();
    let mut flags = std::collections::BTreeSet::new();
    for _ in 0..2000 {
        kinds.insert(random_choice(Choices::LetterCode));
        codes.insert(random_code(&vec![7, 8, 9]));
        flags.insert(random_flag(1, 2, 'V', 'U'));
    }
    assert_eq!(kinds.len(), 5);
    assert_eq!(codes.len(), 3);
    assert_eq!(flags.len(), 2);
}

#[test]
fn civil_status_depends_on_the_age() {
    for _ in 0..200 {
        for age in 0..=17 {
            assert_eq!(random_civil_status(age), "U");
        }
        for age in 18..=24 {
            assert!(["U", "G"].contains(&random_civil_status(age)));
        }
        for age in [25, 40, 100, 150, -1] {
            assert!(["U", "G", "F", "E"].contains(&random_civil_status(age)));
        }
    }
}

#[test]
fn label_is_looked_up_or_the_code_itself() {
    let civst = mappings().civst;
    assert_eq!(label_for(&civst, "U"), "Ugift");
    assert_eq!(label_for(&civst, "F"), "Fraskilt");
    assert_eq!(label_for(&civst, "E"), "E");
    assert_eq!(label_for(&Vec::new(), "U"), "U");
}

#[test]
fn spouse_chance_grows_with_the_age() {
    for (age, tenths) in [
        (0, 0),
        (17, 0),
        (18, 1),
        (25, 1),
        (26, 5),
        (35, 5),
        (36, 7),
        (60, 7),
        (61, 6),
        (100, 6),
        (-1, 6),
    ] {
        assert_eq!(spouse_chance(age), tenths, "age {}", age);
    }
}

#[test]
fn gender_is_read_off_the_last_digit() {
    assert_eq!(gender_code("150320-2124"), 'K');
    assert_eq!(gender_code("150320-2125"), 'M');
    assert_eq!(gender_code("0"), 'K');
    assert_eq!(gender_code("9"), 'M');
}

#[test]
fn codes_of_a_mapping_are_the_keys_that_are_numbers() {
    let keys: Vec<String> = ["1", "-2", "x", "+3", "", "127", "128", "300", "07"]
        .iter()
        .map(|k| k.to_string())
        .collect();
    assert_eq!(integer_codes(&keys, NumberWidth::I8), vec![1, -2, 3, 127, 7]);
    assert_eq!(integer_codes(&keys, NumberWidth::I16), vec![1, -2, 3, 127, 128, 300, 7]);
    assert_eq!(integer_codes(&keys, NumberWidth::I32), vec![1, -2, 3, 127, 128, 300, 7]);
    assert_eq!(integer_codes(&Vec::new(), NumberWidth::I32), Vec::<i32>::new());
    let m = mappings();
    assert_eq!(m.keys(Mapping::Socio13), &vec![110, 120, 310]);
    assert_eq!(m.keys(Mapping::Jobkat), &vec![-1, 7]);
    assert_eq!(m.keys(Mapping::Beskst13), &vec![1, 2, 3]);
}

#[test]
fn rules_run_only_with_what_they_draw_from() {
    let full = mappings();
    let mut empty = mappings();
    empty.scd = Vec::new();
    empty.statsb = Vec::new();
    let persons = PnrPool::new();
    let contacts = RecnumPool::new();
    let runs = |rule: ColumnRule, m: &Mappings| can_run(rule, 2020, m, &persons, &contacts);
    assert!(runs(ColumnRule::Diagnosis, &full));
    assert!(!runs(ColumnRule::Diagnosis, &empty));
    assert!(runs(ColumnRule::MappingKey(Mapping::Statsb), &full));
    assert!(!runs(ColumnRule::MappingKey(Mapping::Statsb), &empty));
    assert!(runs(ColumnRule::MappingKey(Mapping::Reg), &empty));
    assert!(!runs(ColumnRule::Amount { from: 0, below: 10 }, &full));
    assert!(runs(ColumnRule::PaddedNumber { low: 1, high: 2, width: 1 }, &full));
    assert!(!runs(ColumnRule::PaddedNumber { low: 2, high: 2, width: 1 }, &full));
    assert!(!runs(ColumnRule::PaddedNumber { low: 1, high: u32::MAX, width: 1 }, &full));
    assert!(!runs(ColumnRule::Number { first: 5, end: 5, size: NumberWidth::I32 }, &full));
    assert!(runs(ColumnRule::Number { first: -128, end: 128, size: NumberWidth::I8 }, &full));
    assert!(!runs(ColumnRule::Number { first: 0, end: 129, size: NumberWidth::I8 }, &full));
    assert!(!runs(ColumnRule::Number { first: -129, end: 0, size: NumberWidth::I8 }, &full));
    assert!(runs(ColumnRule::Number { first: 0, end: 32_768, size: NumberWidth::I16 }, &full));
    assert!(!runs(ColumnRule::Number { first: 0, end: 32_769, size: NumberWidth::I16 }, &full));
    assert!(runs(
        ColumnRule::Number { first: i32::MIN, end: i32::MAX, size: NumberWidth::I32 },
        &full
    ));
    assert!(!runs(ColumnRule::Flag { numerator: 2, denominator: 1, yes: 'a', no: 'b' }, &full));
    assert!(!runs(ColumnRule::Flag { numerator: 0, denominator: 0, yes: 'a', no: 'b' }, &full));
    assert!(!runs(
        ColumnRule::DateBetween { first_year: 2000, end_year: 2000, format: DateFormat::Iso },
        &full
    ));
    assert!(runs(ColumnRule::PersonId, &empty));
    assert!(runs(ColumnRule::TimeOfDay, &empty));
}

#[test]
fn rules_run_only_in_years_that_they_can_use() {
    let m = mappings();
    let persons = PnrPool::new();
    let contacts = RecnumPool::new();
    let runs = |rule: ColumnRule, year: i32| can_run(rule, year, &m, &persons, &contacts);
    // A rule that neither mints a person nor writes a day of the year runs
    // in any year.
    for year in [i32::MIN, 0, i32::MAX] {
        assert!(runs(ColumnRule::TimeOfDay, year));
        assert!(runs(ColumnRule::NewContact, year));
        assert!(runs(ColumnRule::Choice(Choices::Priority), year));
        assert!(!runs(ColumnRule::PersonId, year) || year == 0);
    }
    assert!(runs(ColumnRule::DateInYear(DateFormat::Iso), -262_143));
    assert!(!runs(ColumnRule::DateInYear(DateFormat::Iso), -262_144));
    assert!(runs(ColumnRule::DateInYear(DateFormat::Iso), 262_142));
    assert!(!runs(ColumnRule::DateInYear(DateFormat::Iso), 262_143));
    for rule in [
        ColumnRule::PersonId,
        ColumnRule::BirthDate,
        ColumnRule::Age,
        ColumnRule::FatherId,
        ColumnRule::MotherId,
        ColumnRule::GenderOfPerson,
        ColumnRule::CivilStatus,
        ColumnRule::SpouseId,
        ColumnRule::PatientId,
        ColumnRule::ContactOfPerson,
    ] {
        assert!(rule.mints_persons());
        assert!(runs(rule, 2020));
        assert!(runs(rule, 262_142 - 5));
        assert!(!runs(rule, 262_142 - 4));
        assert!(!runs(rule, -262_143 + 204));
    }
    assert!(!ColumnRule::NewContact.mints_persons());
    assert!(ColumnRule::NewContact.mints_contacts());
    assert!(ColumnRule::ContactOfPerson.mints_contacts());
    assert!(!ColumnRule::PersonId.mints_contacts());
    assert!(!ColumnRule::Diagnosis.mints_persons());
}

#[test]
fn plain_cells_leave_the_pools_alone() {
    let m = mappings();
    let mut persons = PnrPool::new();
    let mut contacts = RecnumPool::new();
    for _ in 0..100 {
        let rule = ColumnRule::Number { first: 101, end: 851, size: NumberWidth::I16 };
        let kom = number(make(rule, &m, &mut persons, &mut contacts));
        assert!((101..851).contains(&kom));
        let rule = ColumnRule::MappingKey(Mapping::Reg);
        let code = number(make(rule, &m, &mut persons, &mut contacts));
        assert!(code == 81 || code == 82);
        let rule = ColumnRule::DateInYear(DateFormat::NamedMonth);
        let date = text(make(rule, &m, &mut persons, &mut contacts));
        assert_eq!(date.len(), 9);
        assert!(date.ends_with("2020"));
        let rule = ColumnRule::DateBetween {
            first_year: 1900,
            end_year: 2023,
            format: DateFormat::Compact,
        };
        let from = text(make(rule, &m, &mut persons, &mut contacts));
        assert_eq!(from.len(), 8);
        assert!((1900..2023).contains(&from[0..4].parse::<i32>().unwrap()));
        let time = text(make(ColumnRule::TimeOfDay, &m, &mut persons, &mut contacts));
        assert_eq!(time.len(), 8);
        assert!(time[0..2].parse::<u32>().unwrap() < 24);
        assert!(time[3..5].parse::<u32>().unwrap() < 60);
        assert!(time[6..8].parse::<u32>().unwrap() < 60);
        assert_eq!(&time[2..3], ":");
        assert_eq!(&time[5..6], ":");
        let diagnosis = text(make(ColumnRule::Diagnosis, &m, &mut persons, &mut contacts));
        assert!(diagnosis.starts_with('D'));
        let rule = ColumnRule::Choice(Choices::ContactSystem);
        let system = text(make(rule, &m, &mut persons, &mut contacts));
        assert!(["PAS", "OPUS", "COSMIC", "EPJ", "MidtEPJ"].contains(&system.as_str()));
    }
    assert_eq!(persons.len(), 0);
    assert_eq!(contacts.len(), 0);
    assert_eq!(contacts.next_recnum(), 1);
}

#[test]
fn person_cells_mint_one_person_each() {
    let m = mappings();
    let mut persons = quiet_pool(2020);
    let mut contacts = RecnumPool::new();
    let mut minted = 0;
    for _ in 0..50 {
        let pnr = text(make(ColumnRule::PersonId, &m, &mut persons, &mut contacts));
        minted += 1;
        let person = persons.person(parse_person_id(&pnr).unwrap()).unwrap();
        assert!((1920..=2020).contains(&person.birth_date.year()));
        let born = text(make(ColumnRule::BirthDate, &m, &mut persons, &mut contacts));
        minted += 1;
        assert_eq!(born.len(), 10);
        assert!((1920..=2020).contains(&born[0..4].parse::<i32>().unwrap()));
        let age = number(make(ColumnRule::Age, &m, &mut persons, &mut contacts));
        minted += 1;
        assert!((0..=100).contains(&age));
        let gender = text(make(ColumnRule::GenderOfPerson, &m, &mut persons, &mut contacts));
        minted += 1;
        assert!(gender == "K" || gender == "M");
        let status = text(make(ColumnRule::CivilStatus, &m, &mut persons, &mut contacts));
        minted += 1;
        assert!(["Ugift", "Gift", "Fraskilt", "E"].contains(&status.as_str()));
        let patient = text(make(ColumnRule::PatientId, &m, &mut persons, &mut contacts));
        minted += 1;
        let person = persons.person(parse_person_id(&patient).unwrap()).unwrap();
        assert!((1921..=2020).contains(&person.birth_date.year()));
    }
    // Identifiers may coincide, so the pool may hold a few persons less.
    assert!(persons.len() <= minted && persons.len() + 3 >= minted);
    assert_eq!(contacts.len(), 0);
}

#[test]
fn parent_cells_give_a_parent_of_a_minted_person() {
    let m = mappings();
    let mut persons = quiet_pool(2020);
    let mut contacts = RecnumPool::new();
    for rule in [ColumnRule::FatherId, ColumnRule::MotherId] {
        for _ in 0..30 {
            let before = persons.len();
            let parent = optional(make(rule, &m, &mut persons, &mut contacts)).unwrap();
            let id = parse_person_id(&parent).unwrap();
            let record = persons.person(id).unwrap();
            assert!((1870..=2002).contains(&record.birth_date.year()));
            assert_eq!(record.mother_id, None);
            assert!(persons.len() <= before + 3);
            // Some person has this parent.
            let child = persons
                .ids()
                .into_iter()
                .map(|k| persons.person(k).unwrap())
                .find(|p| match rule {
                    ColumnRule::FatherId => p.father_id == Some(id),
                    _ => p.mother_id == Some(id),
                })
                .unwrap();
            let age = child.birth_date.year() - record.birth_date.year();
            assert!((18..=50).contains(&age));
        }
    }
}

#[test]
fn spouse_cell_gives_a_person_or_nothing() {
    let m = mappings();
    let mut persons = quiet_pool(2020);
    let mut contacts = RecnumPool::new();
    let mut with_spouse = 0;
    for _ in 0..300 {
        let before = persons.len();
        match optional(make(ColumnRule::SpouseId, &m, &mut persons, &mut contacts)) {
            Some(spouse) => {
                with_spouse += 1;
                let record = persons.person(parse_person_id(&spouse).unwrap()).unwrap();
                assert!((1915..=2007).contains(&record.birth_date.year()));
                assert!(persons.len() <= before + 3);
            }
            None => assert!(persons.len() <= before + 2),
        }
    }
    assert!(with_spouse > 50 && with_spouse < 250, "{}", with_spouse);
}

#[test]
fn contact_cells_mint_contacts() {
    let m = mappings();
    let mut persons = quiet_pool(2020);
    let mut contacts = RecnumPool::new();
    let first = text(make(ColumnRule::NewContact, &m, &mut persons, &mut contacts));
    assert_eq!(first, "00000000000000000001");
    assert_eq!(contacts.len(), 0);
    let linked = text(make(ColumnRule::ContactOfPerson, &m, &mut persons, &mut contacts));
    assert_eq!(linked, "00000000000000000002");
    assert_eq!(contacts.len(), 1);
    assert_eq!(persons.len(), 1);
    let pnr = persons.person(persons.ids()[0]).unwrap().pnr();
    assert_eq!(contacts.get_random_recnum_for_pnr(&pnr), Some(2));
    let next = text(make(ColumnRule::NewContact, &m, &mut persons, &mut contacts));
    assert_eq!(next, "00000000000000000003");
}

#[test]
fn gender_of_an_identifier_is_that_of_the_person() {
    let mut pool = PnrPool::new();
    for _ in 0..200 {
        let id = pool.add_person(1975, None, None);
        let person = pool.person(id).unwrap();
        let code = gender_code(&person.pnr());
        assert_eq!(code, person.gender.code());
        match person.gender {
            Gender::Female => assert_eq!(code, 'K'),
            Gender::Male => assert_eq!(code, 'M'),
        }
    }
}

#[test]
fn every_rule_of_the_registers_runs_with_filled_mappings() {
    let m = mappings();
    let tables = [
        bef_rules(),
        lpr_adm_rules(),
        lpr_bes_rules(),
        lpr_diag_rules(),
        lpr3_diagnoser_rules(),
        lpr3_kontakter_rules(),
        akm_rules(),
        idan_rules(),
        ind_rules(),
        uddf_rules(),
    ];
    let mut rules = 0;
    let mut persons = quiet_pool(2020);
    let mut contacts = RecnumPool::new();
    for table in tables {
        for (name, rule) in table {
            rules += 1;
            if let ColumnRule::Amount { from, below } = rule {
                assert!(from < below, "{}", name);
                continue;
            }
            assert!(can_run(rule, 2020, &m, &persons, &contacts), "{}", name);
            make(rule, &m, &mut persons, &mut contacts);
        }
    }
    assert_eq!(rules, 114);
}

#[test]
fn persons_are_minted_only_for_years_within_the_calendar() {
    let pool = PnrPool::new();
    assert!(allows_persons(&pool, 2020));
    assert!(allows_persons(&pool, -262_143 + 205));
    assert!(!allows_persons(&pool, -262_143 + 204));
    assert!(allows_persons(&pool, 262_142 - 5));
    assert!(!allows_persons(&pool, 262_142 - 4));
    assert!(!allows_persons(&pool, i32::MAX));
    assert!(!allows_persons(&pool, i32::MIN));
    let mut old = PnrPool::new();
    old.add_person(-262_143 + 49, None, None);
    assert!(!allows_persons(&old, 2020));
}

#[test]
fn spouse_is_minted_exactly_for_those_drawn_to_have_one() {
    let mut persons = quiet_pool(2020);
    for age in [0, 17, 18, 40, 100] {
        let before = persons.ids();
        assert_eq!(spouse_for(&mut persons, 2020, age, false), None);
        assert_eq!(persons.ids(), before);
        let spouse = spouse_for(&mut persons, 2020, age, true).unwrap();
        let record = persons.person(parse_person_id(&spouse).unwrap()).unwrap();
        let born = 2020 - age;
        assert!((born - 5..=born + 5).contains(&record.birth_date.year()));
        assert!(record.birth_date.day() <= 28);
        assert_eq!(record.mother_id, None);
        assert_eq!(record.father_id, None);
        assert!(persons.len() <= before.len() + 1);
    }
}

#[test]
fn nobody_under_eighteen_has_a_spouse() {
    let mut persons = quiet_pool(2020);
    for _ in 0..200 {
        for age in [0, 9, 17] {
            assert_eq!(random_spouse(&mut persons, 2020, age), None);
        }
    }
    assert_eq!(persons.len(), 0);
    let mut with_spouse = 0;
    for _ in 0..300 {
        if random_spouse(&mut persons, 2020, 40).is_some() {
            with_spouse += 1;
        }
    }
    assert!(with_spouse > 150 && with_spouse < 270, "{}", with_spouse);
    assert!(persons.len() <= with_spouse);
}
