use cdef_data_generator::date::Date;
use cdef_data_generator::generate::pnr::{get_parents_pnr, get_pnr_for_birth_date, PnrPool};
use cdef_data_generator::generate::pnr_codec::{
    encode_person_number, parse_person_id, person_id_string, Gender, MAX_SERIAL_DRAWS,
    PERSON_NUMBER_LIMIT,
};
use cdef_data_generator::generate::pnr_model::Person;

fn control_digit(number: u64) -> u64 {
    (number / 1000) % 10
}

#[test]
fn new_pool_is_empty_with_default_window() {
    let pool = PnrPool::new();
    assert_eq!(pool.len(), 0);
    assert_eq!(pool.min_parent_age(), 18);
    assert_eq!(pool.max_parent_age(), 50);
    assert!(!pool.is_year_generated(2020));
    assert_eq!(pool.get_random_pnr(), None);
    assert_eq!(pool.get_random_adult_pnr(Gender::Female, 2020), None);
}

#[test]
fn window_of_parents_can_be_set() {
    let pool = PnrPool::with_parent_ages(20, 40).unwrap();
    assert_eq!(pool.min_parent_age(), 20);
    assert_eq!(pool.max_parent_age(), 40);
    assert_eq!(pool.len(), 0);
    assert!(PnrPool::with_parent_ages(1, 99).is_some());
    assert!(PnrPool::with_parent_ages(30, 30).is_some());
    assert!(PnrPool::with_parent_ages(0, 50).is_none());
    assert!(PnrPool::with_parent_ages(18, 100).is_none());
    assert!(PnrPool::with_parent_ages(50, 18).is_none());
    assert!(PnrPool::with_parent_ages(-5, -1).is_none());
    let mut pool = PnrPool::with_parent_ages(20, 21).unwrap();
    pool.generate_cohort(2000, 25);
    for id in pool.ids() {
        let person = pool.person(id).unwrap();
        if person.birth_date.year() != 2000 {
            assert!((1979..=1980).contains(&person.birth_date.year()));
        }
    }
    assert_eq!(pool.earliest_birth_year(), 1979);
}

#[test]
fn limits_are_as_documented() {
    assert_eq!(PERSON_NUMBER_LIMIT, 10_000_000_000);
    assert!(MAX_SERIAL_DRAWS >= 2);
}

#[test]
fn added_person_is_consistent_with_its_identifier() {
    let mut pool = PnrPool::new();
    for year in [1850, 1899, 1900, 1936, 1937, 1999, 2000, 2020, 2099, 2100, 1799, 0, -1, -150] {
        for _ in 0..50 {
            let id = pool.add_person(year, None, None);
            let person = pool.person(id).unwrap();
            assert_eq!(person.id, id);
            assert_eq!(person.birth_date.year(), year);
            assert!(person.birth_date.day() <= 28);
            assert_eq!(person.mother_id, None);
            assert_eq!(person.father_id, None);
            // The last digit is even for a woman and odd for a man.
            let text = person.pnr();
            assert_eq!(text.len(), 11);
            let last = text.chars().last().unwrap().to_digit(10).unwrap();
            match person.gender {
                Gender::Female => assert_eq!(last % 2, 0),
                Gender::Male => assert_eq!(last % 2, 1),
            }
            // The control digit lies in the range of the century.
            let control = control_digit(id);
            assert_eq!(text.chars().nth(7).unwrap().to_digit(10).unwrap() as u64, control);
            let (low, high) = if (1800..=1899).contains(&year) {
                (5, 8)
            } else if (1900..1937).contains(&year) {
                (0, 4)
            } else if (1937..=1999).contains(&year) {
                (4, 10)
            } else if (2000..=2099).contains(&year) {
                (0, 4)
            } else {
                (4, 10)
            };
            assert!(low <= control && control < high, "year {} control {}", year, control);
            assert!(id % 1000 < 999);
            // The date is spelled in the first six digits.
            let expected_front = format!(
                "{:02}{:02}{:02}",
                person.birth_date.day(),
                person.birth_date.month(),
                year.rem_euclid(100)
            );
            assert_eq!(&text[0..6], expected_front);
            assert_eq!(&text[6..7], "-");
            assert_eq!(parse_person_id(&text), Some(id));
        }
    }
}

#[test]
fn gender_code_is_m_or_k() {
    assert_eq!(Gender::Male.code(), 'M');
    assert_eq!(Gender::Female.code(), 'K');
}

#[test]
fn insert_replaces_the_person_under_the_same_identifier() {
    let mut pool = PnrPool::new();
    let date = Date::from_ymd_opt(1920, 5, 17).unwrap();
    let later = Date::from_ymd_opt(2020, 5, 17).unwrap();
    let id = encode_person_number(date, 3, 122);
    assert_eq!(id, encode_person_number(later, 3, 122));
    pool.insert_person(Person {
        id,
        birth_date: date,
        gender: Gender::Female,
        mother_id: None,
        father_id: None,
    });
    assert_eq!(pool.len(), 1);
    pool.insert_person(Person {
        id,
        birth_date: later,
        gender: Gender::Female,
        mother_id: None,
        father_id: None,
    });
    assert_eq!(pool.len(), 1);
    assert_eq!(pool.person(id).unwrap().birth_date.year(), 2020);
    assert_eq!(pool.ids(), vec![id]);
}

#[test]
fn eligible_parents_are_of_the_gender_and_within_the_window() {
    let mut pool = PnrPool::new();
    let mut put = |year: i32, serial: u16, gender: Gender| -> u64 {
        let date = Date::from_ymd_opt(year, 6, 15).unwrap();
        let control = if year < 1937 { 1 } else if year < 2000 { 5 } else { 1 };
        let id = encode_person_number(date, control, serial);
        pool.insert_person(Person {
            id,
            birth_date: date,
            gender,
            mother_id: None,
            father_id: None,
        });
        id
    };
    let too_young = put(2003, 2, Gender::Female);
    let youngest = put(2002, 4, Gender::Female);
    let oldest = put(1970, 6, Gender::Female);
    let too_old = put(1969, 8, Gender::Female);
    let man = put(1985, 1, Gender::Male);
    let mut women = pool.eligible_ids(Gender::Female, 2020);
    women.sort();
    let mut expected = vec![youngest, oldest];
    expected.sort();
    assert_eq!(women, expected);
    assert_eq!(pool.eligible_ids(Gender::Male, 2020), vec![man]);
    assert!(!women.contains(&too_young));
    assert!(!women.contains(&too_old));
    for _ in 0..50 {
        let chosen = pool.get_random_adult_pnr(Gender::Female, 2020).unwrap();
        assert!(chosen == youngest || chosen == oldest);
        assert_eq!(pool.get_random_adult_pnr(Gender::Male, 2020), Some(man));
    }
    assert_eq!(pool.get_random_adult_pnr(Gender::Male, 1990), None);
    assert!(pool.get_random_pnr().is_some());
}

#[test]
fn small_cohort_has_two_parents_per_birth_and_linked_children() {
    let mut pool = PnrPool::new();
    pool.generate_cohort(2020, 40);
    assert!(pool.is_year_generated(2020));
    assert!(pool.len() <= 120);
    assert!(pool.len() >= 100);
    let mut children = 0;
    let mut parents = 0;
    for id in pool.ids() {
        let person = pool.person(id).unwrap();
        let year = person.birth_date.year();
        if year == 2020 {
            children += 1;
            let mother = pool.person(person.mother_id.unwrap()).unwrap();
            let father = pool.person(person.father_id.unwrap()).unwrap();
            assert_eq!(mother.gender, Gender::Female);
            assert_eq!(father.gender, Gender::Male);
            assert!((18..=50).contains(&(2020 - mother.birth_date.year())));
            assert!((18..=50).contains(&(2020 - father.birth_date.year())));
        } else {
            parents += 1;
            assert!((1970..=2002).contains(&year));
            assert_eq!(person.mother_id, None);
            assert_eq!(person.father_id, None);
        }
    }
    assert!(children <= 40 && children >= 35);
    assert!(parents <= 80 && parents >= 75);
}

#[test]
fn cohort_without_births_only_marks_the_year() {
    let mut pool = PnrPool::new();
    pool.generate_cohort(1999, 0);
    assert!(pool.is_year_generated(1999));
    assert_eq!(pool.len(), 0);
}

#[test]
fn generating_a_year_twice_adds_nobody() {
    let mut pool = PnrPool::new();
    pool.generate_year(2020);
    let first = pool.len();
    assert!(pool.is_year_generated(2020));
    // Collisions of identifiers within the cohort may lower the count below
    // the number of persons synthesized.
    assert!(first > 150_000 && first <= 195_000);
    let before = pool.ids();
    pool.generate_year(2020);
    assert_eq!(pool.len(), first);
    assert_eq!(pool.ids(), before);
}

#[test]
fn most_newborns_of_a_generated_year_have_parents_in_the_window() {
    let mut pool = PnrPool::new();
    pool.generate_year(2020);
    let newborns: Vec<Person> = pool
        .ids()
        .into_iter()
        .map(|id| pool.person(id).unwrap())
        .filter(|person| person.birth_date.year() == 2020)
        .take(1000)
        .collect();
    assert_eq!(newborns.len(), 1000);
    let mut resolved = 0;
    for child in &newborns {
        let mother = child.mother_id.and_then(|id| pool.person(id));
        let father = child.father_id.and_then(|id| pool.person(id));
        if let (Some(mother), Some(father)) = (mother, father) {
            let mother_age = 2020 - mother.birth_date.year();
            let father_age = 2020 - father.birth_date.year();
            if (18..=50).contains(&mother_age) && (18..=50).contains(&father_age) {
                resolved += 1;
            }
        }
    }
    assert!(resolved >= 950, "only {} of 1000 have both parents", resolved);
}

#[test]
fn asking_twice_for_one_birth_date_mints_two_persons() {
    let mut pool = PnrPool::new();
    let date = Date::from_ymd_opt(2020, 3, 15).unwrap();
    let first = get_pnr_for_birth_date(&mut pool, date);
    assert!(pool.is_year_generated(2020));
    assert!(first.starts_with("150320-"));
    // Two identifiers for one date coincide with a chance of about one in
    // four thousand; a run of equal ones shows that persons were looked up
    // instead of minted.
    let mut other = get_pnr_for_birth_date(&mut pool, date);
    let mut tries = 0;
    while other == first && tries < 4 {
        other = get_pnr_for_birth_date(&mut pool, date);
        tries += 1;
    }
    assert_ne!(first, other);
    assert!(other.starts_with("150320-"));
    assert!(pool.person(parse_person_id(&first).unwrap()).is_some());
    assert!(pool.person(parse_person_id(&other).unwrap()).is_some());
}

#[test]
fn minted_person_has_no_parents_until_they_are_resolved() {
    let mut pool = PnrPool::new();
    pool.generate_cohort(1990, 0);
    let date = Date::from_ymd_opt(1990, 7, 1).unwrap();
    let text = get_pnr_for_birth_date(&mut pool, date);
    assert_eq!(pool.len(), 1);
    let id = parse_person_id(&text).unwrap();
    let person = pool.person(id).unwrap();
    assert_eq!(person.birth_date.year(), 1990);
    assert_eq!(person.birth_date.month(), 7);
    assert_eq!(person.birth_date.day(), 1);
    assert_eq!(person.mother_id, None);
    assert_eq!(person.father_id, None);
    let (mother, father) = get_parents_pnr(&mut pool, &text);
    let mother = mother.unwrap();
    let father = father.unwrap();
    let held = pool.person(id).unwrap();
    assert_eq!(held.mother_id.map(person_id_string), Some(mother.clone()));
    assert_eq!(held.father_id.map(person_id_string), Some(father.clone()));
    for parent in [&mother, &father] {
        let record = pool.person(parse_person_id(parent).unwrap()).unwrap();
        let age = 1990 - record.birth_date.year();
        assert!((18..=50).contains(&age));
        assert_eq!(record.mother_id, None);
        assert_eq!(record.father_id, None);
    }
    // The links are kept: a second request returns them and adds nobody.
    let count = pool.len();
    assert_eq!(get_parents_pnr(&mut pool, &text), (Some(mother), Some(father)));
    assert_eq!(pool.len(), count);
}

#[test]
fn existing_link_is_kept_and_the_other_is_filled() {
    let mut pool = PnrPool::new();
    let mother_date = Date::from_ymd_opt(1960, 2, 3).unwrap();
    let mother_id = encode_person_number(mother_date, 4, 20);
    pool.insert_person(Person {
        id: mother_id,
        birth_date: mother_date,
        gender: Gender::Female,
        mother_id: None,
        father_id: None,
    });
    let date = Date::from_ymd_opt(1990, 7, 1).unwrap();
    let id = encode_person_number(date, 5, 11);
    pool.insert_person(Person {
        id,
        birth_date: date,
        gender: Gender::Male,
        mother_id: Some(mother_id),
        father_id: None,
    });
    let (mother, father) = pool.resolve_parents(id);
    assert_eq!(mother, Some(mother_id));
    let father = father.unwrap();
    assert_ne!(father, id);
    assert_eq!(pool.len(), 3);
    let held = pool.person(id).unwrap();
    assert_eq!(held.mother_id, Some(mother_id));
    assert_eq!(held.father_id, Some(father));
    assert!((1940..=1972).contains(&pool.person(father).unwrap().birth_date.year()));
}

#[test]
fn unknown_identifier_has_no_parents() {
    let mut pool = PnrPool::new();
    pool.add_person(1980, None, None);
    assert_eq!(get_parents_pnr(&mut pool, "010101-4000"), (None, None));
    assert_eq!(get_parents_pnr(&mut pool, "no identifier"), (None, None));
    assert_eq!(get_parents_pnr(&mut pool, ""), (None, None));
    assert_eq!(pool.resolve_parents(42), (None, None));
    assert_eq!(pool.len(), 1);
}

#[test]
fn pool_tells_what_it_admits() {
    let mut pool = PnrPool::new();
    let date = Date::from_ymd_opt(1985, 4, 9).unwrap();
    let id = encode_person_number(date, 6, 431);
    let person = Person {
        id,
        birth_date: date,
        gender: Gender::Male,
        mother_id: None,
        father_id: None,
    };
    assert!(pool.admits(&person));
    // The serial is odd, so the identifier is not that of a woman.
    assert!(!pool.admits(&Person { gender: Gender::Female, ..person }));
    // The identifier spells another date.
    let other = Date::from_ymd_opt(1985, 4, 10).unwrap();
    assert!(!pool.admits(&Person { birth_date: other, ..person }));
    // The control digit is outside the range of the years from 1937.
    let low = encode_person_number(date, 3, 431);
    assert!(!pool.admits(&Person { id: low, ..person }));
    // The serial 999 is never drawn.
    let last = encode_person_number(date, 6, 999);
    assert!(!pool.admits(&Person { id: last, ..person }));
    // A link must name a person of the pool.
    assert!(!pool.admits(&Person { mother_id: Some(id), ..person }));
    pool.insert_person(person);
    let child_date = Date::from_ymd_opt(2010, 1, 1).unwrap();
    let child = Person {
        id: encode_person_number(child_date, 0, 2),
        birth_date: child_date,
        gender: Gender::Female,
        mother_id: None,
        father_id: Some(id),
    };
    assert!(pool.admits(&child));
    assert!(pool.can_resolve_parents(child.id));
    pool.insert_person(child);
    assert!(pool.can_resolve_parents(child.id));
    assert!(pool.can_resolve_parents(12345));
    assert_eq!(pool.earliest_birth_year(), 1985);
}
