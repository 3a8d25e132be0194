use crate::date::{Date, MAX_YEAR, MIN_YEAR};
use crate::generate::pnr_codec::{
    gender_of_number, is_person_number_of, person_id_string, person_id_text, Gender,
};
use vstd::prelude::*;

verus! {

/// One synthesized person.
#[derive(Clone, Copy, Debug)]
pub struct Person {
    /// The number of the person's identifier.
    pub id: u64,
    pub birth_date: Date,
    pub gender: Gender,
    /// The mother's identifier; `None` while the link is not resolved.
    pub mother_id: Option<u64>,
    /// The father's identifier; `None` while the link is not resolved.
    pub father_id: Option<u64>,
}

impl Person {
    /// The identifier spells the birth date and the gender.
    pub open spec fn wf(self) -> bool {
        &&& self.birth_date.is_valid()
        &&& is_person_number_of(self.id as int, self.birth_date, self.gender)
    }

    /// The year of birth.
    pub open spec fn birth_year(self) -> int {
        self.birth_date.year() as int
    }

    /// Whether the person may be chosen as a parent of the given gender for
    /// a child born in `year`: the age in that year lies in the window.
    pub open spec fn is_eligible_parent(
        self,
        gender: Gender,
        year: int,
        min_age: int,
        max_age: int,
    ) -> bool {
        self.gender == gender && min_age <= year - self.birth_year() <= max_age
    }

    /// The text of the person's identifier.
    pub fn pnr(&self) -> (text: String)
        ensures
            text@ == person_id_text(self.id as int),
    {
        person_id_string(self.id)
    }
}

/// What a newly synthesized person is like: born on one of the first 28
/// days of a month of `birth_year`, with an identifier that spells birth
/// date and gender, and with the given parent links.
pub open spec fn is_new_person(
    person: Person,
    birth_year: int,
    mother_id: Option<u64>,
    father_id: Option<u64>,
) -> bool {
    &&& person.wf()
    &&& person.birth_year() == birth_year
    &&& person.birth_date.day() <= 28
    &&& person.mother_id == mother_id
    &&& person.father_id == father_id
}

/// Whether a parent link names one of `persons`. An absent link names
/// nobody.
pub open spec fn link_known(persons: Map<u64, Person>, link: Option<u64>) -> bool {
    link matches Some(id) ==> persons.contains_key(id)
}

/// What a pool of persons holds: the persons by identifier, the birth years
/// whose cohort was generated, the earliest birth year of a person that was
/// ever put in, and the window of parents' ages.
pub struct PnrPoolView {
    pub persons: Map<u64, Person>,
    pub years: Set<i32>,
    /// The earliest birth year of all persons that were put into the pool;
    /// the latest year of the calendar while nobody was.
    pub earliest: int,
    pub min_parent_age: int,
    pub max_parent_age: int,
}

impl PnrPoolView {
    /// Every person is held under its own identifier, which spells its
    /// birth date and gender, has no parent link but to a person of the
    /// pool, and was born in the earliest birth year or later; parents are
    /// between 1 and 99 years old.
    pub open spec fn wf(self) -> bool {
        &&& 1 <= self.min_parent_age <= self.max_parent_age <= 99
        &&& self.earliest <= MAX_YEAR
        &&& forall|k: u64| #[trigger]
            self.persons.contains_key(k) ==> self.persons[k].id == k && self.persons[k].wf()
                && self.earliest <= self.persons[k].birth_year()
        &&& forall|k: u64|
            self.persons.contains_key(k) ==> #[trigger] link_known(
                self.persons,
                self.persons[k].mother_id,
            )
        &&& forall|k: u64|
            self.persons.contains_key(k) ==> #[trigger] link_known(
                self.persons,
                self.persons[k].father_id,
            )
    }

    /// Whether a parent link names a person of the pool. An absent link
    /// names nobody.
    pub open spec fn knows(self, link: Option<u64>) -> bool {
        link_known(self.persons, link)
    }

    /// Whether `person` can be put into the pool: its identifier spells its
    /// birth date and gender, and its parent links name persons of the
    /// pool.
    pub open spec fn admits(self, person: Person) -> bool {
        &&& person.wf()
        &&& self.knows(person.mother_id)
        &&& self.knows(person.father_id)
    }

    /// Whether the persons of `added` can be put into the pool one after
    /// the other.
    pub open spec fn admits_all(self, added: Seq<Person>) -> bool {
        forall|i: int|
            0 <= i < added.len() ==> #[trigger] self.with_all(added.take(i)).admits(added[i])
    }

    /// Whether the earliest birth year of `after` is that of `self`, or
    /// earlier but not before `bound`: nobody was put in who was born
    /// before `bound` and before everybody of `self`.
    pub open spec fn keeps_earliest(self, after: PnrPoolView, bound: int) -> bool {
        after.earliest <= self.earliest && (after.earliest == self.earliest || bound
            <= after.earliest)
    }

    /// The pool after `person` was put under its identifier, in place of
    /// whoever was there.
    pub open spec fn with_person(self, person: Person) -> PnrPoolView {
        PnrPoolView {
            persons: self.persons.insert(person.id, person),
            earliest: if person.birth_year() < self.earliest {
                person.birth_year()
            } else {
                self.earliest
            },
            ..self
        }
    }

    /// The pool after the persons of `added` were put in, first to last.
    pub open spec fn with_all(self, added: Seq<Person>) -> PnrPoolView
        decreases added.len(),
    {
        if added.len() == 0 {
            self
        } else {
            self.with_all(added.drop_last()).with_person(added.last())
        }
    }

    /// Whether parents can be synthesized for the person under `id`: if the
    /// person lacks a link, the birth year of the oldest possible parent is
    /// a year that dates can carry.
    pub open spec fn can_resolve_parents(self, id: u64) -> bool {
        self.persons.contains_key(id) && (self.persons[id].mother_id is None
            || self.persons[id].father_id is None) ==> MIN_YEAR <= self.persons[id].birth_year()
            - self.max_parent_age
    }

    /// Whether `text` is the text of the identifier of a person of the pool.
    pub open spec fn holds_text(self, text: Seq<char>) -> bool {
        exists|id: u64|
            #[trigger] self.persons.contains_key(id) && text == person_id_text(id as int)
    }

    /// Whether the pool holds a person under `id` who may be chosen as a
    /// parent of the given gender for a child born in `year`.
    pub open spec fn is_eligible(self, id: u64, gender: Gender, year: int) -> bool {
        &&& self.persons.contains_key(id)
        &&& self.persons[id].is_eligible_parent(
            gender,
            year,
            self.min_parent_age,
            self.max_parent_age,
        )
    }
}

/// A parent of the cohort of `year`: newly synthesized without parent links,
/// of an age in that year within the window.
pub open spec fn is_cohort_parent(person: Person, year: int, min_age: int, max_age: int) -> bool {
    &&& is_new_person(person, person.birth_year(), None, None)
    &&& min_age <= year - person.birth_year() <= max_age
}

/// A parent link of a child born in `year`, as the pool was when the link
/// was drawn: the link names a person who may be a parent of that gender,
/// and it is absent only where the pool has no such person.
pub open spec fn parent_link_drawn(
    pool: PnrPoolView,
    link: Option<u64>,
    gender: Gender,
    year: int,
) -> bool {
    match link {
        Some(id) => pool.is_eligible(id, gender, year),
        None => forall|k: u64| !pool.is_eligible(k, gender, year),
    }
}

/// A child of the cohort of `year`: newly synthesized, born in that year,
/// with a mother and a father drawn from `pool`.
pub open spec fn is_cohort_child(pool: PnrPoolView, person: Person, year: int) -> bool {
    &&& is_new_person(person, year, person.mother_id, person.father_id)
    &&& parent_link_drawn(pool, person.mother_id, Gender::Female, year)
    &&& parent_link_drawn(pool, person.father_id, Gender::Male, year)
}

/// The persons of a cohort in the order they were put into `pool`: two
/// parents for each birth, then the children, each with parents drawn from
/// the pool as it was just before the child was put in.
pub open spec fn is_cohort(pool: PnrPoolView, year: int, births: int, added: Seq<Person>) -> bool {
    &&& added.len() == 3 * births
    &&& forall|i: int|
        0 <= i < 2 * births ==> #[trigger] is_cohort_parent(
            added[i],
            year,
            pool.min_parent_age,
            pool.max_parent_age,
        )
    &&& forall|i: int|
        2 * births <= i < 3 * births ==> #[trigger] is_cohort_child(
            pool.with_all(added.take(i)),
            added[i],
            year,
        )
}

/// `after` is `before` with a cohort of `births` births put in for `year`
/// and the year marked as generated.
pub open spec fn cohort_generated(
    before: PnrPoolView,
    year: i32,
    births: int,
    after: PnrPoolView,
) -> bool {
    exists|added: Seq<Person>|
        is_cohort(before, year as int, births, added) && after == (PnrPoolView {
            years: before.years.insert(year),
            ..before.with_all(added)
        })
}

/// `after` is `before` once the cohort of `year` is in place: unchanged if
/// the year was generated before, else with a cohort of 55,000 to 65,000
/// births put in.
pub open spec fn year_generated(before: PnrPoolView, year: i32, after: PnrPoolView) -> bool {
    if before.years.contains(year) {
        after == before
    } else {
        exists|births: int|
            55_000 <= births <= 65_000 && cohort_generated(before, year, births, after)
    }
}

/// `after` is `before` once a person born on `birth_date` was minted under
/// `id`: the identifier spells the date and a gender, and the person is put
/// in without parent links unless the identifier was taken, in which case
/// the pool is unchanged.
pub open spec fn person_minted(
    before: PnrPoolView,
    birth_date: Date,
    id: u64,
    after: PnrPoolView,
) -> bool {
    &&& is_person_number_of(id as int, birth_date, gender_of_number(id as int))
    &&& after == (if before.persons.contains_key(id) {
        before
    } else {
        before.with_person(
            Person {
                id,
                birth_date,
                gender: gender_of_number(id as int),
                mother_id: None,
                father_id: None,
            },
        )
    })
}

/// `after` is `before` once an identifier was asked for `birth_date`: the
/// cohort of the birth year is in place, and then a person was minted.
#[verifier::opaque]
pub open spec fn pnr_created(
    before: PnrPoolView,
    birth_date: Date,
    id: u64,
    after: PnrPoolView,
) -> bool {
    exists|between: PnrPoolView|
        year_generated(before, birth_date.year(), between) && person_minted(
            between,
            birth_date,
            id,
            after,
        )
}

/// The parents synthesized for `child`, mother before father, and the links
/// that result: a link that the child has is kept, one that it lacks names
/// the parent synthesized for it.
pub open spec fn are_resolved_parents(
    pool: PnrPoolView,
    child: Person,
    added: Seq<Person>,
    links: (Option<u64>, Option<u64>),
) -> bool {
    &&& added.len() == (if child.mother_id is None {
        1int
    } else {
        0int
    }) + (if child.father_id is None {
        1int
    } else {
        0int
    })
    &&& forall|i: int|
        0 <= i < added.len() ==> #[trigger] is_cohort_parent(
            added[i],
            child.birth_year(),
            pool.min_parent_age,
            pool.max_parent_age,
        )
    &&& links.0 == (if child.mother_id is None {
        Some(added[0].id)
    } else {
        child.mother_id
    })
    &&& links.1 == (if child.father_id is None {
        Some(added.last().id)
    } else {
        child.father_id
    })
}

/// `after` is `before` once the parents of the person under `id` were
/// resolved to `links`: nothing changes and no link is given for an unknown
/// identifier; else a parent is synthesized for each link that the person
/// lacks, and the person is held with both links from then on.
pub open spec fn parents_resolved(
    before: PnrPoolView,
    id: u64,
    links: (Option<u64>, Option<u64>),
    after: PnrPoolView,
) -> bool {
    if !before.persons.contains_key(id) {
        links == (None::<u64>, None::<u64>) && after == before
    } else {
        let child = before.persons[id];
        exists|added: Seq<Person>|
            are_resolved_parents(before, child, added, links) && after == before.with_all(
                added,
            ).with_person(Person { mother_id: links.0, father_id: links.1, ..child })
    }
}

/// Whether `text` is the text of the identifier that `link` names, or both
/// are absent.
pub open spec fn is_link_text(text: Option<String>, link: Option<u64>) -> bool {
    match (text, link) {
        (Some(t), Some(number)) => t@ == person_id_text(number as int),
        (None, None) => true,
        _ => false,
    }
}

/// `after` holds every person and every generated year of `before`, with
/// the same window of parents' ages: what every operation on a pool keeps.
pub open spec fn pool_grown(before: PnrPoolView, after: PnrPoolView) -> bool {
    &&& after.min_parent_age == before.min_parent_age
    &&& after.max_parent_age == before.max_parent_age
    &&& forall|k: u64|
        before.persons.contains_key(k) ==> #[trigger] after.persons.contains_key(k)
    &&& forall|y: i32| before.years.contains(y) ==> #[trigger] after.years.contains(y)
}

} // verus!
