use crate::generate::pnr_laws::link_in_window;
use crate::generate::pnr_lemmas::{
    lemma_admits_prefix, lemma_cohort_admitted, lemma_parents_admitted, lemma_with_all_keeps,
};
use crate::generate::pnr_model::{
    are_resolved_parents, is_cohort, is_cohort_child, is_cohort_parent, Person, PnrPoolView,
};
use vstd::prelude::*;

verus! {

/// Whether every parent link of the pool names a person who was between
/// the least and the greatest age of a parent in the year of the child's
/// birth.
pub open spec fn links_in_window(pool: PnrPoolView) -> bool {
    &&& forall|k: u64|
        pool.persons.contains_key(k) ==> #[trigger] link_in_window(
            pool,
            pool.persons[k].mother_id,
            pool.persons[k].birth_year(),
        )
    &&& forall|k: u64|
        pool.persons.contains_key(k) ==> #[trigger] link_in_window(
            pool,
            pool.persons[k].father_id,
            pool.persons[k].birth_year(),
        )
}

/// Whether `person` takes nobody's place in `pool`, or the place of a
/// person born in the same year. Identifiers spell two digits of the year,
/// so a person may take the place of one born a hundred years apart.
pub open spec fn keeps_birth_year(pool: PnrPoolView, person: Person) -> bool {
    pool.persons.contains_key(person.id) ==> pool.persons[person.id].birth_year()
        == person.birth_year()
}

/// Whether each person of `added` has parent links within the window and
/// keeps the birth year of its place, as `pool` is when the person is put
/// in.
pub open spec fn fit_windows(pool: PnrPoolView, added: Seq<Person>) -> bool {
    forall|i: int|
        0 <= i < added.len() ==> #[trigger] fits_window(pool.with_all(added.take(i)), added[i])
}

/// Whether `person` has parent links within the window and keeps the birth
/// year of its place in `pool`.
pub open spec fn fits_window(pool: PnrPoolView, person: Person) -> bool {
    &&& keeps_birth_year(pool, person)
    &&& link_in_window(pool, person.mother_id, person.birth_year())
    &&& link_in_window(pool, person.father_id, person.birth_year())
}

/// Putting a person in whose parents are within the window keeps every
/// parent link within the window, unless the person takes the place of
/// one born in another year.
pub proof fn lemma_with_person_keeps_windows(pool: PnrPoolView, person: Person)
    requires
        pool.wf(),
        pool.admits(person),
        links_in_window(pool),
        keeps_birth_year(pool, person),
        link_in_window(pool, person.mother_id, person.birth_year()),
        link_in_window(pool, person.father_id, person.birth_year()),
    ensures
        links_in_window(pool.with_person(person)),
{
    let after = pool.with_person(person);
    assert forall|k: u64| after.persons.contains_key(k) implies #[trigger] link_in_window(
        after,
        after.persons[k].mother_id,
        after.persons[k].birth_year(),
    ) by {
        if k != person.id {
            assert(link_in_window(pool, pool.persons[k].mother_id, pool.persons[k].birth_year()));
        }
    }
    assert forall|k: u64| after.persons.contains_key(k) implies #[trigger] link_in_window(
        after,
        after.persons[k].father_id,
        after.persons[k].birth_year(),
    ) by {
        if k != person.id {
            assert(link_in_window(pool, pool.persons[k].father_id, pool.persons[k].birth_year()));
        }
    }
}

/// Putting persons in one after the other whose parents are within the
/// window keeps every parent link within the window, unless one of them
/// takes the place of a person born in another year.
pub proof fn lemma_with_all_keeps_windows(pool: PnrPoolView, added: Seq<Person>)
    requires
        pool.wf(),
        pool.admits_all(added),
        links_in_window(pool),
        fit_windows(pool, added),
    ensures
        pool.with_all(added).wf(),
        links_in_window(pool.with_all(added)),
    decreases added.len(),
{
    lemma_with_all_keeps(pool, added);
    if added.len() > 0 {
        let front = added.drop_last();
        let last = added.last();
        assert(front =~= added.take(added.len() - 1));
        lemma_admits_prefix(pool, added, added.len() - 1);
        assert(fit_windows(pool, front)) by {
            assert forall|i: int| 0 <= i < front.len() implies #[trigger] fits_window(
                pool.with_all(front.take(i)),
                front[i],
            ) by {
                assert(front.take(i) =~= added.take(i));
                assert(front[i] == added[i]);
                assert(fits_window(pool.with_all(added.take(i)), added[i]));
            }
        }
        lemma_with_all_keeps_windows(pool, front);
        assert(last == added[added.len() - 1]);
        assert(pool.with_all(added.take(added.len() - 1)).admits(added[added.len() - 1]));
        assert(fits_window(pool.with_all(added.take(added.len() - 1)), added[added.len() - 1]));
        lemma_with_person_keeps_windows(pool.with_all(front), last);
    }
}

/// Whether nobody of `added` takes the place of a person born in another
/// year, as `pool` is when the person is put in.
pub open spec fn keep_birth_years(pool: PnrPoolView, added: Seq<Person>) -> bool {
    forall|i: int|
        0 <= i < added.len() ==> #[trigger] keeps_birth_year(
            pool.with_all(added.take(i)),
            added[i],
        )
}

/// A cohort that is put into a pool whose parent links are all within the
/// window leaves them all within the window, unless a person of the cohort
/// takes the place of one born in another year.
pub proof fn lemma_cohort_keeps_windows(
    pool: PnrPoolView,
    year: int,
    births: int,
    added: Seq<Person>,
)
    requires
        pool.wf(),
        links_in_window(pool),
        is_cohort(pool, year, births, added),
        keep_birth_years(pool, added),
    ensures
        pool.with_all(added).wf(),
        links_in_window(pool.with_all(added)),
{
    lemma_cohort_admitted(pool, year, births, added);
    assert(fit_windows(pool, added)) by {
        assert forall|i: int| 0 <= i < added.len() implies #[trigger] fits_window(
            pool.with_all(added.take(i)),
            added[i],
        ) by {
            lemma_admits_prefix(pool, added, i);
            lemma_with_all_keeps(pool, added.take(i));
            assert(keeps_birth_year(pool.with_all(added.take(i)), added[i]));
            if i < 2 * births {
                assert(is_cohort_parent(added[i], year, pool.min_parent_age, pool.max_parent_age));
            } else {
                assert(is_cohort_child(pool.with_all(added.take(i)), added[i], year));
            }
        }
    }
    lemma_with_all_keeps_windows(pool, added);
}

/// Resolving the parents of a person in a pool whose parent links are all
/// within the window leaves them all within the window, unless a parent
/// that is synthesized takes the place of a person born in another year.
pub proof fn lemma_resolved_keeps_windows(
    pool: PnrPoolView,
    id: u64,
    added: Seq<Person>,
    links: (Option<u64>, Option<u64>),
)
    requires
        pool.wf(),
        links_in_window(pool),
        pool.persons.contains_key(id),
        are_resolved_parents(pool, pool.persons[id], added, links),
        keep_birth_years(pool, added),
    ensures
        links_in_window(
            pool.with_all(added).with_person(
                Person { mother_id: links.0, father_id: links.1, ..pool.persons[id] },
            ),
        ),
{
    let child = pool.persons[id];
    let resolved = Person { mother_id: links.0, father_id: links.1, ..child };
    let grown = pool.with_all(added);
    lemma_parents_admitted(
        pool,
        added,
        child.birth_year(),
        pool.min_parent_age,
        pool.max_parent_age,
    );
    assert(fit_windows(pool, added)) by {
        assert forall|i: int| 0 <= i < added.len() implies #[trigger] fits_window(
            pool.with_all(added.take(i)),
            added[i],
        ) by {
            assert(keeps_birth_year(pool.with_all(added.take(i)), added[i]));
        }
    }
    lemma_with_all_keeps_windows(pool, added);
    lemma_with_all_keeps(pool, added);
    assert(link_in_window(pool, child.mother_id, child.birth_year()));
    assert(link_in_window(pool, child.father_id, child.birth_year()));
    lemma_child_stays(pool, id, added);
    lemma_links_stay(pool, child, added, links);
    lemma_with_person_keeps_windows(grown, resolved);
}

/// Parents that are synthesized for a person do not take the person's
/// place, whose birth year stays as it was.
proof fn lemma_child_stays(pool: PnrPoolView, id: u64, added: Seq<Person>)
    requires
        pool.wf(),
        pool.persons.contains_key(id),
        pool.admits_all(added),
        keep_birth_years(pool, added),
    ensures
        pool.with_all(added).persons.contains_key(id),
        pool.with_all(added).persons[id].birth_year() == pool.persons[id].birth_year(),
    decreases added.len(),
{
    if added.len() > 0 {
        let front = added.drop_last();
        assert(front =~= added.take(added.len() - 1));
        lemma_admits_prefix(pool, added, added.len() - 1);
        assert(keep_birth_years(pool, front)) by {
            assert forall|i: int| 0 <= i < front.len() implies #[trigger] keeps_birth_year(
                pool.with_all(front.take(i)),
                front[i],
            ) by {
                assert(front.take(i) =~= added.take(i));
                assert(front[i] == added[i]);
                assert(keeps_birth_year(pool.with_all(added.take(i)), added[i]));
            }
        }
        lemma_child_stays(pool, id, front);
        assert(added.last() == added[added.len() - 1]);
        assert(keeps_birth_year(
            pool.with_all(added.take(added.len() - 1)),
            added[added.len() - 1],
        ));
    }
}

/// The links that a person is held with after its parents were resolved
/// are within the window.
proof fn lemma_links_stay(
    pool: PnrPoolView,
    child: Person,
    added: Seq<Person>,
    links: (Option<u64>, Option<u64>),
)
    requires
        pool.wf(),
        child.wf(),
        are_resolved_parents(pool, child, added, links),
        keep_birth_years(pool, added),
        link_in_window(pool, child.mother_id, child.birth_year()),
        link_in_window(pool, child.father_id, child.birth_year()),
    ensures
        pool.with_all(added).admits(Person { mother_id: links.0, father_id: links.1, ..child }),
        link_in_window(pool.with_all(added), links.0, child.birth_year()),
        link_in_window(pool.with_all(added), links.1, child.birth_year()),
{
    let grown = pool.with_all(added);
    lemma_parents_admitted(
        pool,
        added,
        child.birth_year(),
        pool.min_parent_age,
        pool.max_parent_age,
    );
    lemma_with_all_keeps(pool, added);
    if added.len() == 0 {
        assert(grown == pool);
    } else {
        let first = added[0];
        let last = added.last();
        assert(added.take(0) =~= Seq::<Person>::empty());
        assert(pool.with_all(added.take(0)) == pool);
        assert(keeps_birth_year(pool, first));
        assert(pool.with_all(seq![first]) == pool.with_person(first)) by {
            assert(seq![first].drop_last() =~= Seq::<Person>::empty());
            assert(pool.with_all(seq![first].drop_last()) == pool);
        }
        if added.len() == 1 {
            assert(added =~= seq![first]);
        } else {
            assert(added.drop_last() =~= seq![first]);
            assert(added.take(1) =~= seq![first]);
            assert(keeps_birth_year(pool.with_person(first), added[1]));
            assert(grown == pool.with_person(first).with_person(last));
        }
    }
}

} // verus!
