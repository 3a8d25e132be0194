use crate::generate::recnum::{contact_id_text, contact_obtained, recnum_allocated, RecnumPoolView};
use crate::text::lemma_digits_value_of_zero_padded;
use vstd::prelude::*;

verus! {

/// A person who was given a contact keeps being given contacts that the
/// person has: of two requests for the same person, in whatever years, the
/// second leaves the pool as it is, and both identifiers are among the
/// person's contacts after the first.
pub proof fn lemma_contact_reused(
    first: RecnumPoolView,
    person: Seq<char>,
    year_a: int,
    id_a: u64,
    second: RecnumPoolView,
    year_b: int,
    id_b: u64,
    third: RecnumPoolView,
)
    requires
        first.wf(),
        contact_obtained(first, person, year_a, id_a, second),
        contact_obtained(second, person, year_b, id_b, third),
    ensures
        second.has_contact(person),
        second.contacts_of(person).contains(id_a),
        second.contacts_of(person).contains(id_b),
        third == second,
        id_b < second.next_recnum,
{
    if !first.has_contact(person) {
        let last = first.contacts.len() as int;
        assert(second.contacts[last].person_id == person);
        assert(second.contacts[last].id == id_a);
    }
    assert(second.has_contact(person));
    assert(second.is_contact_of(person, id_a));
    assert(second.is_contact_of(person, id_b));
    let i = choose|i: int|
        0 <= i < second.contacts.len() && (#[trigger] second.contacts[i]).id == id_b
            && second.contacts[i].person_id == person;
    assert(second.wf());
}

/// Sequence numbers grow in the order in which they are given out: a number
/// given out later is greater than one given out before, however it was
/// given out, and it is the number of no contact made before.
pub proof fn lemma_recnum_increases(
    first: RecnumPoolView,
    id_a: u64,
    second: RecnumPoolView,
    id_b: u64,
    third: RecnumPoolView,
)
    requires
        first.wf(),
        recnum_allocated(first, id_a, second),
        recnum_allocated(second, id_b, third),
    ensures
        second.wf(),
        third.wf(),
        id_a < id_b,
        !first.is_linked(id_a),
        !second.is_linked(id_b),
        first.next_recnum < second.next_recnum < third.next_recnum,
{
    lemma_allocation_keeps_wf(first, id_a, second);
    lemma_allocation_keeps_wf(second, id_b, third);
}

/// Giving out a sequence number keeps the pool well-formed, keeps the
/// contacts that were there, and gives a number that no contact has.
pub proof fn lemma_allocation_keeps_wf(before: RecnumPoolView, id: u64, after: RecnumPoolView)
    requires
        before.wf(),
        recnum_allocated(before, id, after),
    ensures
        after.wf(),
        after.next_recnum == before.next_recnum + 1,
        !before.is_linked(id),
        before.contacts.len() <= after.contacts.len(),
        forall|i: int|
            0 <= i < before.contacts.len() ==> #[trigger] after.contacts[i] == before.contacts[i],
{
}

/// No two contacts of a pool share a sequence number.
pub proof fn lemma_contact_ids_distinct(pool: RecnumPoolView, i: int, j: int)
    requires
        pool.wf(),
        0 <= i < pool.contacts.len(),
        0 <= j < pool.contacts.len(),
        i != j,
    ensures
        pool.contacts[i].id != pool.contacts[j].id,
{
    if i < j {
        assert(pool.contacts[i].id < pool.contacts[j].id);
    } else {
        assert(pool.contacts[j].id < pool.contacts[i].id);
    }
}

/// Different sequence numbers have different texts.
pub proof fn lemma_contact_id_text_injective(a: u64, b: u64)
    requires
        contact_id_text(a as int) == contact_id_text(b as int),
    ensures
        a == b,
{
    lemma_digits_value_of_zero_padded(a as nat, 20);
    lemma_digits_value_of_zero_padded(b as nat, 20);
}

} // verus!
