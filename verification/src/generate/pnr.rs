use crate::date::{Date, MAX_YEAR, MIN_YEAR};
use crate::generate::pnr_codec::{
    generate_pnr, is_person_number, lemma_last_digit_encodes_gender,
    lemma_person_id_text_round_trip, lemma_person_number_bound, parse_person_id, person_id_string,
    person_id_text, person_number_of_text, Gender, PERSON_NUMBER_LIMIT,
};
use crate::generate::pnr_lemmas::{
    lemma_cohort_keeps, lemma_newborn_keeps_eligible, lemma_with_all_keeps, lemma_with_all_push,
    lemma_with_person_keeps,
};
use crate::generate::pnr_model::{
    are_resolved_parents, cohort_generated, is_cohort, is_cohort_child, is_cohort_parent,
    is_link_text, is_new_person, link_known, parents_resolved, person_minted, pnr_created,
    pool_grown, year_generated, Person, PnrPoolView,
};
use crate::random::{pick_id, random_in_range, random_ratio};
use std::collections::HashMap;
use vstd::pervasive::unreached;
use vstd::prelude::*;

verus! {

/// The registry of synthesized persons.
pub struct PnrPool {
    persons: HashMap<u64, Person>,
    /// The identifiers of `persons`, each once, in the order they came.
    ids: Vec<u64>,
    years: Vec<i32>,
    earliest: i32,
    min_parent_age: i32,
    max_parent_age: i32,
}

impl View for PnrPool {
    type V = PnrPoolView;

    closed spec fn view(&self) -> PnrPoolView {
        PnrPoolView {
            persons: self.persons@,
            years: self.years@.to_set(),
            earliest: self.earliest as int,
            min_parent_age: self.min_parent_age as int,
            max_parent_age: self.max_parent_age as int,
        }
    }
}

impl PnrPool {
    /// The list of identifiers names each person once.
    pub closed spec fn indexed(&self) -> bool {
        &&& self.ids@.no_duplicates()
        &&& forall|i: int|
            0 <= i < self.ids@.len() ==> self.persons@.contains_key(#[trigger] self.ids@[i])
        &&& forall|k: u64| #[trigger] self.persons@.contains_key(k) ==> self.ids@.contains(k)
    }

    pub open spec fn wf(&self) -> bool {
        self@.wf() && self.indexed()
    }

    /// An empty pool whose parents are between 18 and 50 years old.
    pub fn new() -> (pool: PnrPool)
        ensures
            pool.wf(),
            pool@.persons == Map::<u64, Person>::empty(),
            pool@.years == Set::<i32>::empty(),
            pool@.earliest == MAX_YEAR,
            pool@.min_parent_age == 18,
            pool@.max_parent_age == 50,
    {
        let pool = PnrPool {
            persons: HashMap::new(),
            ids: Vec::new(),
            years: Vec::new(),
            earliest: MAX_YEAR,
            min_parent_age: 18,
            max_parent_age: 50,
        };
        assert(pool.years@.to_set() =~= Set::<i32>::empty());
        pool
    }

    /// An empty pool whose parents are between `min_parent_age` and
    /// `max_parent_age` years old in the year of a child's birth. `None`
    /// unless the ages are in order and between 1 and 99.
    pub fn with_parent_ages(min_parent_age: i32, max_parent_age: i32) -> (made: Option<PnrPool>)
        ensures
            made is Some <==> 1 <= min_parent_age <= max_parent_age <= 99,
            made matches Some(pool) ==> {
                &&& pool.wf()
                &&& pool@.persons == Map::<u64, Person>::empty()
                &&& pool@.years == Set::<i32>::empty()
                &&& pool@.earliest == MAX_YEAR
                &&& pool@.min_parent_age == min_parent_age
                &&& pool@.max_parent_age == max_parent_age
            },
    {
        if 1 <= min_parent_age && min_parent_age <= max_parent_age && max_parent_age <= 99 {
            let pool = PnrPool {
                persons: HashMap::new(),
                ids: Vec::new(),
                years: Vec::new(),
                earliest: MAX_YEAR,
                min_parent_age,
                max_parent_age,
            };
            assert(pool.years@.to_set() =~= Set::<i32>::empty());
            Some(pool)
        } else {
            None
        }
    }

    /// The least age of a parent in the year of a child's birth.
    pub fn min_parent_age(&self) -> (age: i32)
        ensures
            age == self@.min_parent_age,
    {
        self.min_parent_age
    }

    /// The greatest age of a parent in the year of a child's birth.
    pub fn max_parent_age(&self) -> (age: i32)
        ensures
            age == self@.max_parent_age,
    {
        self.max_parent_age
    }

    /// The earliest birth year of all persons that were put into the pool;
    /// the latest year of the calendar while nobody was.
    pub fn earliest_birth_year(&self) -> (year: i32)
        ensures
            year == self@.earliest,
    {
        self.earliest
    }

    /// Whether the cohort of `year` was generated.
    pub fn is_year_generated(&self, year: i32) -> (known: bool)
        ensures
            known == self@.years.contains(year),
    {
        let mut at: usize = 0;
        while at < self.years.len()
            invariant
                at <= self.years@.len(),
                forall|i: int| 0 <= i < at ==> self.years@[i] != year,
            decreases self.years@.len() - at,
        {
            if self.years[at] == year {
                assert(self.years@.contains(year));
                return true;
            }
            at = at + 1;
        }
        assert(!self.years@.contains(year));
        false
    }

    /// The number of persons in the pool.
    pub fn len(&self) -> (count: usize)
        requires
            self.wf(),
        ensures
            count == self@.persons.dom().len(),
    {
        self.persons.len()
    }

    /// The identifiers of all persons, each once.
    pub fn ids(&self) -> (all: Vec<u64>)
        requires
            self.wf(),
        ensures
            all@.no_duplicates(),
            forall|k: u64| #[trigger] all@.contains(k) <==> self@.persons.contains_key(k),
    {
        self.ids.clone()
    }

    /// The person held under `id`, if there is one.
    pub fn person(&self, id: u64) -> (found: Option<Person>)
        ensures
            found == (if self@.persons.contains_key(id) {
                Some(self@.persons[id])
            } else {
                None
            }),
    {
        match self.persons.get(&id) {
            Some(person) => Some(*person),
            None => None,
        }
    }

    /// Whether parents can be synthesized for the person under `id`: if the
    /// person lacks a link, the birth year of the oldest possible parent is
    /// a year that dates can carry.
    pub fn can_resolve_parents(&self, id: u64) -> (possible: bool)
        ensures
            possible == self@.can_resolve_parents(id),
    {
        match self.persons.get(&id) {
            Some(person) => {
                let lacks_link = person.mother_id.is_none() || person.father_id.is_none();
                !lacks_link || MIN_YEAR as i64 <= person.birth_date.year() as i64
                    - self.max_parent_age as i64
            },
            None => true,
        }
    }

    /// Whether `person` can be put into the pool: its identifier spells its
    /// birth date and gender, and its parent links name persons of the
    /// pool.
    pub fn admits(&self, person: &Person) -> (admitted: bool)
        ensures
            admitted == self@.admits(*person),
    {
        proof {
            use_type_invariant(&person.birth_date);
        }
        let mother_known = match person.mother_id {
            Some(mother) => self.persons.contains_key(&mother),
            None => true,
        };
        let father_known = match person.father_id {
            Some(father) => self.persons.contains_key(&father),
            None => true,
        };
        is_person_number(person.id, person.birth_date, person.gender) && mother_known
            && father_known
    }

    /// Puts `person` under its identifier, in place of whoever was there.
    pub fn insert_person(&mut self, person: Person)
        requires
            old(self).wf(),
            old(self)@.admits(person),
        ensures
            final(self).wf(),
            final(self)@ == old(self)@.with_person(person),
    {
        if !self.persons.contains_key(&person.id) {
            self.ids.push(person.id);
            assert(forall|i: int|
                0 <= i < old(self).ids@.len() ==> self.ids@[i] == old(self).ids@[i]);
        }
        self.persons.insert(person.id, person);
        let birth_year: i32 = person.birth_date.year();
        if birth_year < self.earliest {
            self.earliest = birth_year;
        }
        proof {
            lemma_with_person_keeps(old(self)@, person);
        }
        assert(self.ids@.no_duplicates());
        assert forall|k: u64| #[trigger] self.persons@.contains_key(k) implies self.ids@.contains(
            k,
        ) by {
            if k == person.id {
                if old(self).persons@.contains_key(k) {
                    let i = choose|i: int| 0 <= i < old(self).ids@.len() && old(self).ids@[i] == k;
                    assert(self.ids@[i] == k);
                } else {
                    assert(self.ids@[self.ids@.len() - 1] == k);
                }
            } else {
                let i = choose|i: int| 0 <= i < old(self).ids@.len() && old(self).ids@[i] == k;
                assert(self.ids@[i] == k);
            }
        }
    }

    /// Synthesizes a person born in `birth_year`, on a random day of a random
    /// month and of random gender, with the given parent links, and puts it
    /// into the pool. Returns the identifier.
    pub fn add_person(
        &mut self,
        birth_year: i32,
        mother_id: Option<u64>,
        father_id: Option<u64>,
    ) -> (id: u64)
        requires
            old(self).wf(),
            MIN_YEAR <= birth_year <= MAX_YEAR,
            old(self)@.knows(mother_id),
            old(self)@.knows(father_id),
        ensures
            final(self).wf(),
            final(self)@.persons.contains_key(id),
            is_new_person(final(self)@.persons[id], birth_year as int, mother_id, father_id),
            final(self)@ == old(self)@.with_person(final(self)@.persons[id]),
            old(self)@.keeps_earliest(final(self)@, birth_year as int),
    {
        let birth_date = Date::random_in_year(birth_year);
        let gender = if random_ratio(1, 2) {
            Gender::Male
        } else {
            Gender::Female
        };
        let id = generate_pnr(birth_date, gender);
        let person = Person { id, birth_date, gender, mother_id, father_id };
        self.insert_person(person);
        id
    }

    /// Puts a cohort of `births` births into the pool for `year` and marks
    /// the year as generated: first two parents for each birth, of an age in
    /// `year` within the window and without parents of their own, then the
    /// children, each with a mother and a father chosen at random among
    /// those in the pool who may be one.
    pub fn generate_cohort(&mut self, year: i32, births: u32)
        requires
            old(self).wf(),
            MIN_YEAR <= year - old(self)@.max_parent_age,
            year <= MAX_YEAR,
        ensures
            final(self).wf(),
            cohort_generated(old(self)@, year, births as int, final(self)@),
            pool_grown(old(self)@, final(self)@),
            old(self)@.keeps_earliest(final(self)@, year - old(self)@.max_parent_age),
    {
        let ghost before = self@;
        let ghost mut added: Seq<Person> = Seq::empty();
        let parents: u64 = 2 * (births as u64);
        let mut made: u64 = 0;
        while made < parents
            invariant
                self.wf(),
                before.wf(),
                parents == 2 * births,
                made <= parents,
                added.len() == made,
                self@ == before.with_all(added),
                self@.min_parent_age == before.min_parent_age,
                self@.max_parent_age == before.max_parent_age,
                MIN_YEAR <= year - before.max_parent_age,
                year <= MAX_YEAR,
                forall|i: int|
                    0 <= i < made ==> is_cohort_parent(
                        #[trigger] added[i],
                        year as int,
                        before.min_parent_age,
                        before.max_parent_age,
                    ),
            decreases parents - made,
        {
            let age: i32 = random_in_range(self.min_parent_age, self.max_parent_age + 1);
            let id = self.add_person(year - age, None, None);
            proof {
                let person = self@.persons[id];
                lemma_with_all_push(before, added, person);
                added = added.push(person);
            }
            made = made + 1;
        }
        let mothers = self.eligible_ids(Gender::Female, year);
        let fathers = self.eligible_ids(Gender::Male, year);
        let mut born: u64 = 0;
        while born < births as u64
            invariant
                self.wf(),
                before.wf(),
                parents == 2 * births,
                born <= births,
                added.len() == parents + born,
                self@ == before.with_all(added),
                MIN_YEAR <= year <= MAX_YEAR,
                forall|k: u64|
                    #![trigger mothers@.contains(k)]
                    #![trigger self@.is_eligible(k, Gender::Female, year as int)]
                    mothers@.contains(k) <==> self@.is_eligible(k, Gender::Female, year as int),
                forall|k: u64|
                    #![trigger fathers@.contains(k)]
                    #![trigger self@.is_eligible(k, Gender::Male, year as int)]
                    fathers@.contains(k) <==> self@.is_eligible(k, Gender::Male, year as int),
                forall|i: int|
                    0 <= i < parents ==> is_cohort_parent(
                        #[trigger] added[i],
                        year as int,
                        before.min_parent_age,
                        before.max_parent_age,
                    ),
                forall|i: int|
                    parents <= i < parents + born ==> is_cohort_child(
                        before.with_all(added.take(i)),
                        #[trigger] added[i],
                        year as int,
                    ),
            decreases births - born,
        {
            let ghost earlier = added;
            let ghost pool = self@;
            let mother_id = pick_id(&mothers);
            let father_id = pick_id(&fathers);
            let id = self.add_person(year, mother_id, father_id);
            proof {
                let person = self@.persons[id];
                lemma_with_all_push(before, added, person);
                lemma_newborn_keeps_eligible(pool, person, year as int);
                added = added.push(person);
                assert(is_cohort_child(pool, person, year as int));
                assert forall|i: int| parents <= i < parents + born + 1 implies is_cohort_child(
                    before.with_all(added.take(i)),
                    #[trigger] added[i],
                    year as int,
                ) by {
                    if i < parents + born {
                        assert(added.take(i) =~= earlier.take(i));
                        assert(added[i] == earlier[i]);
                    } else {
                        assert(added.take(i) =~= earlier);
                    }
                }
            }
            born = born + 1;
        }
        let ghost years_before = self.years@;
        proof {
            assert(is_cohort(before, year as int, births as int, added));
            lemma_cohort_keeps(before, year as int, births as int, added);
            assert(years_before.to_set() == before.years);
        }
        if !self.is_year_generated(year) {
            self.years.push(year);
        }
        proof {
            assert(self.years@.to_set() =~= before.years.insert(year)) by {
                assert forall|y: i32|
                    self.years@.contains(y) <==> (y == year || years_before.contains(y)) by {
                    if years_before.contains(y) {
                        let i = choose|i: int| 0 <= i < years_before.len() && years_before[i] == y;
                        assert(self.years@[i] == y);
                    }
                    if y == year && !years_before.contains(year) {
                        assert(self.years@[self.years@.len() - 1] == year);
                    }
                }
            }
            assert(self@ == (PnrPoolView {
                years: before.years.insert(year),
                ..before.with_all(added)
            }));
        }
    }

    /// Makes sure that the cohort of `year` is in the pool: nothing happens
    /// if the year was generated before; else a cohort of 55,000 to 65,000
    /// births is generated.
    pub fn generate_year(&mut self, year: i32)
        requires
            old(self).wf(),
            old(self)@.years.contains(year) || (MIN_YEAR <= year - old(self)@.max_parent_age
                && year <= MAX_YEAR),
        ensures
            final(self).wf(),
            year_generated(old(self)@, year, final(self)@),
            final(self)@.years.contains(year),
            pool_grown(old(self)@, final(self)@),
            old(self)@.keeps_earliest(final(self)@, year - old(self)@.max_parent_age),
    {
        if self.is_year_generated(year) {
            return;
        }
        let births: i32 = random_in_range(55_000, 65_001);
        self.generate_cohort(year, births as u32);
        assert(cohort_generated(old(self)@, year, births as int, self@));
    }

    /// Mints a person born on `birth_date`, of random gender, after making
    /// sure that the cohort of the birth year is in the pool. A person is
    /// minted on every call; one whose identifier is taken already is not put
    /// into the pool. Returns the identifier.
    pub fn get_or_create_pnr(&mut self, birth_date: Date) -> (id: u64)
        requires
            old(self).wf(),
            old(self)@.years.contains(birth_date.year()) || MIN_YEAR <= birth_date.year()
                - old(self)@.max_parent_age,
        ensures
            final(self).wf(),
            pnr_created(old(self)@, birth_date, id, final(self)@),
            final(self)@.persons.contains_key(id),
            id < PERSON_NUMBER_LIMIT,
            pool_grown(old(self)@, final(self)@),
            old(self)@.keeps_earliest(
                final(self)@,
                birth_date.year() - old(self)@.max_parent_age,
            ),
    {
        let year: i32 = birth_date.year();
        self.generate_year(year);
        let ghost between = self@;
        let gender = if random_ratio(1, 2) {
            Gender::Male
        } else {
            Gender::Female
        };
        let id = generate_pnr(birth_date, gender);
        proof {
            use_type_invariant(&birth_date);
        }
        if !self.persons.contains_key(&id) {
            self.insert_person(
                Person { id, birth_date, gender, mother_id: None, father_id: None },
            );
        }
        assert(pnr_created(old(self)@, birth_date, id, self@)) by {
            reveal(pnr_created);
            lemma_last_digit_encodes_gender(id as int, birth_date, gender);
            assert(person_minted(between, birth_date, id, self@));
        }
        id
    }

    /// Resolves the parents of the person under `id`. Links that the person
    /// has are returned as they are. For a link that it lacks, a parent is
    /// synthesized, of an age within the window in the person's birth year
    /// and without parents of its own, and the person is held with that link
    /// from then on. An unknown identifier gives no links.
    pub fn resolve_parents(&mut self, id: u64) -> (links: (Option<u64>, Option<u64>))
        requires
            old(self).wf(),
            old(self)@.can_resolve_parents(id),
        ensures
            final(self).wf(),
            parents_resolved(old(self)@, id, links, final(self)@),
            pool_grown(old(self)@, final(self)@),
            old(self)@.persons.contains_key(id) ==> links.0 is Some && links.1 is Some
                && final(self)@.knows(links.0) && final(self)@.knows(links.1),
    {
        let child = match self.persons.get(&id) {
            Some(person) => *person,
            None => {
                return (None, None);
            },
        };
        let ghost before = self@;
        let ghost mut added: Seq<Person> = Seq::empty();
        assert(link_known(before.persons, before.persons[id].mother_id));
        assert(link_known(before.persons, before.persons[id].father_id));
        let birth_year: i32 = child.birth_date.year();
        let mother_id = match child.mother_id {
            Some(mother) => Some(mother),
            None => {
                let age: i32 = random_in_range(self.min_parent_age, self.max_parent_age + 1);
                let mother = self.add_person(birth_year - age, None, None);
                proof {
                    let person = self@.persons[mother];
                    lemma_with_all_push(before, added, person);
                    added = added.push(person);
                }
                Some(mother)
            },
        };
        let father_id = match child.father_id {
            Some(father) => Some(father),
            None => {
                let age: i32 = random_in_range(self.min_parent_age, self.max_parent_age + 1);
                let father = self.add_person(birth_year - age, None, None);
                proof {
                    let person = self@.persons[father];
                    lemma_with_all_push(before, added, person);
                    added = added.push(person);
                }
                Some(father)
            },
        };
        self.insert_person(Person { mother_id, father_id, ..child });
        proof {
            assert(are_resolved_parents(before, child, added, (mother_id, father_id)));
            lemma_with_all_keeps(before, added);
        }
        (mother_id, father_id)
    }

    /// The identifiers of the persons who may be chosen as a parent of the
    /// given gender for a child born in `year`, each once.
    pub fn eligible_ids(&self, gender: Gender, year: i32) -> (found: Vec<u64>)
        requires
            self.wf(),
        ensures
            found@.no_duplicates(),
            forall|k: u64|
                #![trigger found@.contains(k)]
                #![trigger self@.is_eligible(k, gender, year as int)]
                found@.contains(k) <==> self@.is_eligible(k, gender, year as int),
    {
        let mut found: Vec<u64> = Vec::new();
        let mut at: usize = 0;
        while at < self.ids.len()
            invariant
                self.wf(),
                at <= self.ids@.len(),
                found@.no_duplicates(),
                forall|k: u64|
                    #![trigger found@.contains(k)]
                    found@.contains(k) <==> (exists|i: int|
                        0 <= i < at && self.ids@[i] == k && self@.is_eligible(
                            k,
                            gender,
                            year as int,
                        )),
            decreases self.ids@.len() - at,
        {
            let id: u64 = self.ids[at];
            let ghost before = found@;
            let person = match self.persons.get(&id) {
                Some(person) => *person,
                None => unreached(),
            };
            let age: i64 = year as i64 - person.birth_date.year() as i64;
            if person.gender == gender && self.min_parent_age as i64 <= age && age
                <= self.max_parent_age as i64 {
                found.push(id);
                assert(forall|j: int| 0 <= j < before.len() ==> found@[j] == before[j]);
                assert(found@[before.len() as int] == id);
                assert(!before.contains(id));
            }
            at = at + 1;
            assert forall|k: u64| #![trigger found@.contains(k)]
                found@.contains(k) <==> (exists|i: int|
                    0 <= i < at && self.ids@[i] == k && self@.is_eligible(
                        k,
                        gender,
                        year as int,
                    )) by {
                if found@.contains(k) {
                    if before.contains(k) {
                    } else {
                        assert(k == id);
                        assert(self.ids@[at - 1] == k);
                    }
                }
                if exists|i: int|
                    0 <= i < at && self.ids@[i] == k && self@.is_eligible(k, gender, year as int) {
                    let i = choose|i: int|
                        0 <= i < at && self.ids@[i] == k && self@.is_eligible(
                            k,
                            gender,
                            year as int,
                        );
                    if i < at - 1 {
                        assert(before.contains(k));
                        let j = choose|j: int| 0 <= j < before.len() && before[j] == k;
                        assert(found@[j] == k);
                    } else {
                        assert(found@[before.len() as int] == k);
                    }
                }
            }
        }
        assert forall|k: u64|
            #![trigger found@.contains(k)]
            #![trigger self@.is_eligible(k, gender, year as int)]
            found@.contains(k) <==> self@.is_eligible(k, gender, year as int) by {
            if self@.is_eligible(k, gender, year as int) {
                let i = choose|i: int| 0 <= i < self.ids@.len() && self.ids@[i] == k;
                assert(0 <= i < at && self.ids@[i] == k);
            }
        }
        found
    }

    /// A person chosen at random among those who may be a parent of the
    /// given gender for a child born in `year`; `None` if there is none.
    pub fn get_random_adult_pnr(&self, gender: Gender, year: i32) -> (chosen: Option<u64>)
        requires
            self.wf(),
        ensures
            match chosen {
                Some(id) => self@.is_eligible(id, gender, year as int),
                None => forall|k: u64| !self@.is_eligible(k, gender, year as int),
            },
    {
        let adults = self.eligible_ids(gender, year);
        pick_id(&adults)
    }

    /// A person chosen at random; `None` if the pool is empty.
    pub fn get_random_pnr(&self) -> (chosen: Option<u64>)
        requires
            self.wf(),
        ensures
            match chosen {
                Some(id) => self@.persons.contains_key(id),
                None => self@.persons == Map::<u64, Person>::empty(),
            },
    {
        let chosen = pick_id(&self.ids);
        proof {
            if chosen is None {
                assert(self@.persons =~= Map::<u64, Person>::empty());
            }
        }
        chosen
    }
}

/// Mints a person born on `birth_date` in `pool` and returns the text of
/// its identifier. The cohort of the birth year is generated first if it
/// was not before. A person is minted on every call, whoever is in the pool
/// already.
pub fn get_pnr_for_birth_date(pool: &mut PnrPool, birth_date: Date) -> (pnr: String)
    requires
        old(pool).wf(),
        old(pool)@.years.contains(birth_date.year()) || MIN_YEAR <= birth_date.year()
            - old(pool)@.max_parent_age,
    ensures
        final(pool).wf(),
        exists|id: u64|
            pnr@ == person_id_text(id as int) && final(pool)@.persons.contains_key(id)
                && #[trigger] pnr_created(old(pool)@, birth_date, id, final(pool)@),
        final(pool)@.holds_text(pnr@),
        pool_grown(old(pool)@, final(pool)@),
        old(pool)@.keeps_earliest(final(pool)@, birth_date.year() - old(pool)@.max_parent_age),
{
    let id = pool.get_or_create_pnr(birth_date);
    person_id_string(id)
}

/// The texts of the identifiers of the parents, mother first, of the person
/// whose identifier has the text `pnr`, resolved as `resolve_parents` does.
/// A text that no person of the pool is held under gives no parents.
pub fn get_parents_pnr(pool: &mut PnrPool, pnr: &str) -> (parents: (
    Option<String>,
    Option<String>,
))
    requires
        old(pool).wf(),
        person_number_of_text(pnr@) matches Some(number) ==> old(pool)@.can_resolve_parents(
            number as u64,
        ),
    ensures
        final(pool).wf(),
        match person_number_of_text(pnr@) {
            Some(number) => exists|links: (Option<u64>, Option<u64>)|
                #[trigger] parents_resolved(old(pool)@, number as u64, links, final(pool)@)
                    && is_link_text(parents.0, links.0) && is_link_text(parents.1, links.1),
            None => parents.0 is None && parents.1 is None && final(pool)@ == old(pool)@,
        },
        pool_grown(old(pool)@, final(pool)@),
        old(pool)@.holds_text(pnr@) ==> {
            &&& parents.0 matches Some(mother) && final(pool)@.holds_text(mother@)
            &&& parents.1 matches Some(father) && final(pool)@.holds_text(father@)
        },
{
    proof {
        if pool@.holds_text(pnr@) {
            let id = choose|id: u64| #[trigger]
                pool@.persons.contains_key(id) && pnr@ == person_id_text(id as int);
            let person = pool@.persons[id];
            lemma_person_number_bound(id as int, person.birth_date, person.gender);
            lemma_person_id_text_round_trip(id as int);
        }
    }
    let id = match parse_person_id(pnr) {
        Some(id) => id,
        None => {
            return (None, None);
        },
    };
    let links = pool.resolve_parents(id);
    let mother = match links.0 {
        Some(number) => Some(person_id_string(number)),
        None => None,
    };
    let father = match links.1 {
        Some(number) => Some(person_id_string(number)),
        None => None,
    };
    (mother, father)
}

} // verus!
