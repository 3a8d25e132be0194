use crate::generate::pnr_codec::{is_person_number_of, lemma_serial_parity, year_of_century, Gender};
use crate::generate::pnr_model::{
    is_cohort, is_cohort_child, is_cohort_parent, link_known, Person, PnrPoolView,
};
use vstd::prelude::*;

verus! {

/// The two-digit year of an identifier is that of the birth year, and its
/// parity that of the gender.
pub proof fn lemma_year_digits(person: Person)
    requires
        person.wf(),
    ensures
        (person.id as int / 10_000) % 100 == person.birth_year() % 100,
        person.id as int % 2 == person.gender.parity(),
{
    reveal(is_person_number_of);
    let date = person.birth_date;
    vstd::arithmetic::div_mod::lemma_fundamental_div_mod_converse(
        person.id as int / 10_000,
        100,
        date.day() * 100 + date.month(),
        year_of_century(person.birth_year()),
    );
    lemma_serial_parity(person.id as int);
}

/// Putting a person after a sequence of persons is putting the sequence
/// with that person at its end.
pub proof fn lemma_with_all_push(pool: PnrPoolView, added: Seq<Person>, person: Person)
    ensures
        pool.with_all(added.push(person)) == pool.with_all(added).with_person(person),
{
    assert(added.push(person).drop_last() =~= added);
}

/// Putting a person in that the pool admits keeps a well-formed pool
/// well-formed.
pub proof fn lemma_with_person_keeps(pool: PnrPoolView, person: Person)
    requires
        pool.wf(),
        pool.admits(person),
    ensures
        pool.with_person(person).wf(),
{
    let after = pool.with_person(person);
    assert forall|k: u64| after.persons.contains_key(k) implies #[trigger] link_known(
        after.persons,
        after.persons[k].mother_id,
    ) by {
        if k != person.id {
            assert(link_known(pool.persons, pool.persons[k].mother_id));
        }
    }
    assert forall|k: u64| after.persons.contains_key(k) implies #[trigger] link_known(
        after.persons,
        after.persons[k].father_id,
    ) by {
        if k != person.id {
            assert(link_known(pool.persons, pool.persons[k].father_id));
        }
    }
}

/// Putting persons in that the pool admits changes neither the years nor
/// the window of ages, keeps everybody who was there, and keeps a
/// well-formed pool well-formed.
pub proof fn lemma_with_all_keeps(pool: PnrPoolView, added: Seq<Person>)
    requires
        pool.wf(),
        pool.admits_all(added),
    ensures
        pool.with_all(added).wf(),
        pool.with_all(added).years == pool.years,
        pool.with_all(added).min_parent_age == pool.min_parent_age,
        pool.with_all(added).max_parent_age == pool.max_parent_age,
        forall|k: u64|
            pool.persons.contains_key(k) ==> #[trigger] pool.with_all(added).persons.contains_key(
                k,
            ),
    decreases added.len(),
{
    if added.len() > 0 {
        let front = added.drop_last();
        assert(pool.admits_all(front)) by {
            assert forall|i: int| 0 <= i < front.len() implies pool.with_all(front.take(i)).admits(
                #[trigger] front[i],
            ) by {
                assert(front.take(i) =~= added.take(i));
                assert(front[i] == added[i]);
            }
        }
        lemma_with_all_keeps(pool, front);
        assert(added.take(added.len() - 1) =~= front);
        assert(pool.with_all(front).admits(added[added.len() - 1]));
        lemma_with_person_keeps(pool.with_all(front), added.last());
    }
}

/// Parents that are synthesized without parent links of their own can be
/// put into any pool.
pub proof fn lemma_parents_admitted(
    pool: PnrPoolView,
    added: Seq<Person>,
    year: int,
    min_age: int,
    max_age: int,
)
    requires
        forall|i: int|
            0 <= i < added.len() ==> #[trigger] is_cohort_parent(added[i], year, min_age, max_age),
    ensures
        pool.admits_all(added),
        forall|i: int|
            0 <= i < added.len() ==> (#[trigger] added[i]).wf() && added[i].mother_id is None
                && added[i].father_id is None && min_age <= year - added[i].birth_year()
                <= max_age,
{
    assert forall|i: int| 0 <= i < added.len() implies (#[trigger] added[i]).wf()
        && added[i].mother_id is None && added[i].father_id is None && min_age <= year
        - added[i].birth_year() <= max_age by {
        assert(is_cohort_parent(added[i], year, min_age, max_age));
    }
    assert forall|i: int| 0 <= i < added.len() implies #[trigger] pool.with_all(
        added.take(i),
    ).admits(added[i]) by {
        assert(is_cohort_parent(added[i], year, min_age, max_age));
    }
}

/// The persons of a cohort can be put into the pool in their order.
pub proof fn lemma_cohort_admitted(pool: PnrPoolView, year: int, births: int, added: Seq<Person>)
    requires
        is_cohort(pool, year, births, added),
    ensures
        pool.admits_all(added),
{
    assert forall|i: int| 0 <= i < added.len() implies pool.with_all(added.take(i)).admits(
        #[trigger] added[i],
    ) by {
        if i < 2 * births {
            assert(is_cohort_parent(added[i], year, pool.min_parent_age, pool.max_parent_age));
        } else {
            assert(is_cohort_child(pool.with_all(added.take(i)), added[i], year));
        }
    }
}

/// What a pool admits one after the other, it admits up to any point.
pub proof fn lemma_admits_prefix(pool: PnrPoolView, added: Seq<Person>, count: int)
    requires
        pool.admits_all(added),
        0 <= count <= added.len(),
    ensures
        pool.admits_all(added.take(count)),
{
    let front = added.take(count);
    assert forall|i: int| 0 <= i < front.len() implies pool.with_all(front.take(i)).admits(
        #[trigger] front[i],
    ) by {
        assert(front.take(i) =~= added.take(i));
        assert(front[i] == added[i]);
    }
}

/// Putting persons in who were born in `bound` or later leaves the earliest
/// birth year as it was, or in `bound` or later.
pub proof fn lemma_with_all_earliest(pool: PnrPoolView, added: Seq<Person>, bound: int)
    requires
        forall|i: int| 0 <= i < added.len() ==> bound <= (#[trigger] added[i]).birth_year(),
    ensures
        pool.keeps_earliest(pool.with_all(added), bound),
    decreases added.len(),
{
    if added.len() > 0 {
        lemma_with_all_earliest(pool, added.drop_last(), bound);
        assert(added.last() == added[added.len() - 1]);
    }
}

/// A cohort that is put into a well-formed pool leaves it well-formed, with
/// the years and the window of ages that it had and with everybody who was
/// there, and adds nobody born before the oldest parent that a child of the
/// year may have.
pub proof fn lemma_cohort_keeps(pool: PnrPoolView, year: int, births: int, added: Seq<Person>)
    requires
        pool.wf(),
        is_cohort(pool, year, births, added),
    ensures
        pool.with_all(added).wf(),
        pool.with_all(added).years == pool.years,
        pool.with_all(added).min_parent_age == pool.min_parent_age,
        pool.with_all(added).max_parent_age == pool.max_parent_age,
        forall|k: u64|
            pool.persons.contains_key(k) ==> #[trigger] pool.with_all(added).persons.contains_key(
                k,
            ),
        pool.keeps_earliest(pool.with_all(added), year - pool.max_parent_age),
{
    lemma_cohort_admitted(pool, year, births, added);
    lemma_with_all_keeps(pool, added);
    assert forall|i: int| 0 <= i < added.len() implies year - pool.max_parent_age <= (
    #[trigger] added[i]).birth_year() by {
        if i < 2 * births {
            assert(is_cohort_parent(added[i], year, pool.min_parent_age, pool.max_parent_age));
        } else {
            assert(is_cohort_child(pool.with_all(added.take(i)), added[i], year));
        }
    }
    lemma_with_all_earliest(pool, added, year - pool.max_parent_age);
}

/// A person born in `year` who is put into a pool changes nothing about
/// who may be a parent for a child born in `year`.
pub proof fn lemma_newborn_keeps_eligible(pool: PnrPoolView, newborn: Person, year: int)
    requires
        pool.wf(),
        newborn.wf(),
        newborn.birth_year() == year,
    ensures
        forall|k: u64, gender: Gender|
            #![trigger pool.with_person(newborn).is_eligible(k, gender, year)]
            #![trigger pool.is_eligible(k, gender, year)]
            pool.with_person(newborn).is_eligible(k, gender, year) == pool.is_eligible(
                k,
                gender,
                year,
            ),
{
    assert forall|k: u64, gender: Gender|
        #![trigger pool.with_person(newborn).is_eligible(k, gender, year)]
        #![trigger pool.is_eligible(k, gender, year)]
        pool.with_person(newborn).is_eligible(k, gender, year) == pool.is_eligible(
            k,
            gender,
            year,
        ) by {
        if k == newborn.id && pool.persons.contains_key(k) {
            let earlier = pool.persons[k];
            lemma_year_digits(earlier);
            lemma_year_digits(newborn);
            assert(earlier.birth_year() % 100 == year % 100);
            assert(!(1 <= year - earlier.birth_year() <= 99));
        }
    }
}

} // verus!
