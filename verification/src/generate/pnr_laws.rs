use crate::generate::pnr_codec::Gender;
use crate::generate::pnr_lemmas::{
    lemma_admits_prefix, lemma_cohort_admitted, lemma_newborn_keeps_eligible,
    lemma_parents_admitted, lemma_with_all_keeps, lemma_with_all_push, lemma_with_person_keeps,
    lemma_year_digits,
};
use crate::generate::pnr_model::{
    are_resolved_parents, cohort_generated, is_cohort, is_cohort_child, is_cohort_parent,
    parents_resolved, year_generated, Person, PnrPoolView,
};
use vstd::prelude::*;

verus! {

/// Whether a parent link of a child born in `child_year` names a person of
/// the pool who was between the least and the greatest age of a parent in
/// that year. An absent link asks nothing.
pub open spec fn link_in_window(pool: PnrPoolView, link: Option<u64>, child_year: int) -> bool {
    link matches Some(parent) ==> pool.persons.contains_key(parent) && child_year
        - pool.max_parent_age <= pool.persons[parent].birth_year() <= child_year
        - pool.min_parent_age
}

/// Whether the person under `id` is new in `pool` or differs from the one
/// that `earlier` held under that identifier.
pub open spec fn is_changed(earlier: PnrPoolView, pool: PnrPoolView, id: u64) -> bool {
    pool.persons.contains_key(id) && (!earlier.persons.contains_key(id) || earlier.persons[id]
        != pool.persons[id])
}

/// Whether every person born in `year` who is new or changed in `pool`
/// against `earlier` has a mother who is a woman of the pool and a father
/// who is a man of the pool, each of an age in `year` within the window,
/// wherever the link is there.
pub open spec fn newborns_have_parents(earlier: PnrPoolView, pool: PnrPoolView, year: int) -> bool {
    forall|k: u64|
        #![trigger is_changed(earlier, pool, k)]
        is_changed(earlier, pool, k) && pool.persons[k].birth_year() == year ==> {
            &&& pool.persons[k].mother_id matches Some(m) ==> pool.is_eligible(
                m,
                Gender::Female,
                year,
            )
            &&& pool.persons[k].father_id matches Some(f) ==> pool.is_eligible(
                f,
                Gender::Male,
                year,
            )
        }
}

/// Generating the cohort of a year is idempotent: once it was generated, a
/// second request leaves the pool as it is, so no person is added.
pub proof fn lemma_generate_year_idempotent(
    first: PnrPoolView,
    year: i32,
    second: PnrPoolView,
    third: PnrPoolView,
)
    requires
        year_generated(first, year, second),
        year_generated(second, year, third),
    ensures
        second.years.contains(year),
        third == second,
        third.persons.dom().len() == second.persons.dom().len(),
{
}

/// While the parents of a cohort are put in, no person born in the year of
/// the cohort is new or changed.
proof fn lemma_cohort_parents(
    before: PnrPoolView,
    year: int,
    births: int,
    added: Seq<Person>,
    count: int,
)
    requires
        before.wf(),
        is_cohort(before, year, births, added),
        0 <= count <= 2 * births,
    ensures
        before.with_all(added.take(count)).wf(),
        forall|k: u64|
            #![trigger is_changed(before, before.with_all(added.take(count)), k)]
            is_changed(before, before.with_all(added.take(count)), k) ==> before.with_all(
                added.take(count),
            ).persons[k].birth_year() != year,
    decreases count,
{
    lemma_cohort_admitted(before, year, births, added);
    lemma_admits_prefix(before, added, count);
    lemma_with_all_keeps(before, added.take(count));
    let pool = before.with_all(added.take(count));
    if count > 0 {
        lemma_cohort_parents(before, year, births, added, count - 1);
        lemma_admits_prefix(before, added, count - 1);
        lemma_with_all_keeps(before, added.take(count - 1));
        let earlier = before.with_all(added.take(count - 1));
        let parent = added[count - 1];
        assert(added.take(count).drop_last() =~= added.take(count - 1));
        assert(added.take(count).last() == parent);
        assert(pool == earlier.with_person(parent));
        assert forall|k: u64|
            #![trigger is_changed(before, pool, k)]
            is_changed(before, pool, k) implies pool.persons[k].birth_year() != year by {
            if k == parent.id {
                assert(pool.persons[k] == parent);
                assert(is_cohort_parent(
                    parent,
                    year,
                    before.min_parent_age,
                    before.max_parent_age,
                ));
            } else {
                assert(pool.persons[k] == earlier.persons[k]);
                assert(is_changed(before, earlier, k));
            }
        }
    }
}

/// While the children of a cohort are put in, every person born in the year
/// of the cohort who is new or changed has parents as `newborns_have_parents`
/// says.
proof fn lemma_cohort_children(
    before: PnrPoolView,
    year: int,
    births: int,
    added: Seq<Person>,
    count: int,
)
    requires
        before.wf(),
        is_cohort(before, year, births, added),
        2 * births <= count <= 3 * births,
    ensures
        before.with_all(added.take(count)).wf(),
        newborns_have_parents(before, before.with_all(added.take(count)), year),
    decreases count,
{
    lemma_cohort_admitted(before, year, births, added);
    lemma_admits_prefix(before, added, count);
    lemma_with_all_keeps(before, added.take(count));
    if count == 2 * births {
        lemma_cohort_parents(before, year, births, added, count);
    } else {
        lemma_cohort_children(before, year, births, added, count - 1);
        let earlier = before.with_all(added.take(count - 1));
        let child = added[count - 1];
        assert(added.take(count).drop_last() =~= added.take(count - 1));
        assert(added.take(count).last() == child);
        let pool = before.with_all(added.take(count));
        assert(pool == earlier.with_person(child));
        assert(is_cohort_child(earlier, child, year));
        lemma_newborn_keeps_eligible(earlier, child, year);
        assert forall|k: u64|
            #![trigger is_changed(before, pool, k)]
            is_changed(before, pool, k) && pool.persons[k].birth_year() == year implies {
            &&& pool.persons[k].mother_id matches Some(m) ==> pool.is_eligible(
                m,
                Gender::Female,
                year,
            )
            &&& pool.persons[k].father_id matches Some(f) ==> pool.is_eligible(
                f,
                Gender::Male,
                year,
            )
        } by {
            if k == child.id {
                assert(pool.persons[k] == child);
            } else {
                assert(pool.persons[k] == earlier.persons[k]);
                assert(is_changed(before, earlier, k));
            }
        }
    }
}

/// After a cohort was generated for `year`, every person born in that year
/// who is new or changed has, for each parent link that is there, a parent
/// in the pool of the right gender whose birth year lies between `year`
/// less the greatest and `year` less the least age of a parent.
pub proof fn lemma_cohort_parents_in_window(
    before: PnrPoolView,
    year: i32,
    births: int,
    after: PnrPoolView,
)
    requires
        before.wf(),
        0 <= births,
        cohort_generated(before, year, births, after),
    ensures
        after.wf(),
        newborns_have_parents(before, after, year as int),
        forall|k: u64|
            #![trigger is_changed(before, after, k)]
            is_changed(before, after, k) && after.persons[k].birth_year() == year ==> {
                &&& link_in_window(after, after.persons[k].mother_id, year as int)
                &&& link_in_window(after, after.persons[k].father_id, year as int)
            },
{
    let added = choose|added: Seq<Person>|
        is_cohort(before, year as int, births, added) && after == (PnrPoolView {
            years: before.years.insert(year),
            ..before.with_all(added)
        });
    lemma_cohort_children(before, year as int, births, added, 3 * births);
    assert(added.take(3 * births) =~= added);
    let pool = before.with_all(added);
    assert forall|k: u64|
        #![trigger is_changed(before, after, k)]
        is_changed(before, after, k) && after.persons[k].birth_year() == year implies {
        &&& after.persons[k].mother_id matches Some(m) ==> after.is_eligible(
            m,
            Gender::Female,
            year as int,
        )
        &&& after.persons[k].father_id matches Some(f) ==> after.is_eligible(
            f,
            Gender::Male,
            year as int,
        )
    } by {
        assert(after.persons[k] == pool.persons[k]);
        assert(is_changed(before, pool, k));
    }
}

/// The same holds after `generate_year`, whether or not the year was
/// generated before.
pub proof fn lemma_generated_year_parents_in_window(
    before: PnrPoolView,
    year: i32,
    after: PnrPoolView,
)
    requires
        before.wf(),
        year_generated(before, year, after),
    ensures
        after.wf(),
        newborns_have_parents(before, after, year as int),
{
    if !before.years.contains(year) {
        let births = choose|births: int|
            55_000 <= births <= 65_000 && cohort_generated(before, year, births, after);
        lemma_cohort_parents_in_window(before, year, births, after);
    }
}

/// After the parents of a person were resolved, the person is held with
/// both links, and each link that was filled names a person of the pool
/// whose birth year lies between the person's birth year less the greatest
/// and less the least age of a parent.
pub proof fn lemma_resolved_parents_in_window(
    before: PnrPoolView,
    id: u64,
    links: (Option<u64>, Option<u64>),
    after: PnrPoolView,
)
    requires
        before.wf(),
        before.persons.contains_key(id),
        parents_resolved(before, id, links, after),
    ensures
        after.wf(),
        after.persons.contains_key(id),
        after.persons[id].mother_id == links.0,
        after.persons[id].father_id == links.1,
        links.0 is Some,
        links.1 is Some,
        before.persons[id].mother_id is None ==> link_in_window(
            after,
            links.0,
            before.persons[id].birth_year(),
        ),
        before.persons[id].father_id is None ==> link_in_window(
            after,
            links.1,
            before.persons[id].birth_year(),
        ),
{
    let child = before.persons[id];
    let added = choose|added: Seq<Person>|
        are_resolved_parents(before, child, added, links) && after == before.with_all(
            added,
        ).with_person(Person { mother_id: links.0, father_id: links.1, ..child });
    let resolved = Person { mother_id: links.0, father_id: links.1, ..child };
    let grown = before.with_all(added);
    lemma_parents_admitted(
        before,
        added,
        child.birth_year(),
        before.min_parent_age,
        before.max_parent_age,
    );
    lemma_with_all_keeps(before, added);
    assert(grown.wf());
    assert(resolved.wf());
    assert(grown.persons.contains_key(id));
    assert(before.admits(child));
    if added.len() >= 1 {
        let first = added[0];
        let last = added.last();
        lemma_parent_differs(child, first);
        lemma_parent_differs(child, last);
        lemma_with_all_push(before, Seq::<Person>::empty(), first);
        assert(Seq::<Person>::empty().push(first) =~= seq![first]);
        assert(before.with_all(seq![first]) == before.with_person(first));
        if added.len() == 1 {
            assert(added =~= seq![first]);
            assert(grown.persons[first.id] == first);
        } else {
            lemma_with_all_push(before, seq![first], last);
            assert(seq![first].push(last) =~= added);
            assert(grown == before.with_person(first).with_person(last));
            assert(grown.persons[last.id] == last);
            assert(grown.persons[first.id] == first || grown.persons[first.id] == last);
        }
        assert(after.persons[first.id] == grown.persons[first.id]);
        assert(after.persons[last.id] == grown.persons[last.id]);
        assert(grown.persons.contains_key(first.id));
        assert(grown.persons.contains_key(last.id));
    }
    assert(grown.admits(resolved));
    lemma_with_person_keeps(grown, resolved);
}

/// A parent who was at least one and at most 99 years old when the child was
/// born has another identifier than the child.
proof fn lemma_parent_differs(child: Person, parent: Person)
    requires
        child.wf(),
        parent.wf(),
        1 <= child.birth_year() - parent.birth_year() <= 99,
    ensures
        child.id != parent.id,
{
    lemma_year_digits(child);
    lemma_year_digits(parent);
}

} // verus!
