use crate::date::{Date, MAX_YEAR, MIN_YEAR};
use crate::random::{choose_one, pick_id};
use crate::text::{hash_text, push_zero_padded, text_hash, zero_padded};
use std::collections::HashMap;
use vstd::pervasive::unreached;
use vstd::prelude::*;

verus! {

/// One contact: its sequence number, the identifier of the person it
/// belongs to, and its date.
#[derive(Debug)]
pub struct ContactRecord {
    pub id: u64,
    pub person_id: String,
    pub contact_date: Date,
}

/// What a contact record holds, with the person's identifier as a sequence
/// of characters.
pub struct ContactView {
    pub id: u64,
    pub person_id: Seq<char>,
    pub contact_date: Date,
}

impl View for ContactRecord {
    type V = ContactView;

    open spec fn view(&self) -> ContactView {
        ContactView {
            id: self.id,
            person_id: self.person_id@,
            contact_date: self.contact_date,
        }
    }
}

/// What a pool of contacts holds: the contacts of persons in the order in
/// which they were allocated, and the sequence number that is given out
/// next.
pub struct RecnumPoolView {
    pub contacts: Seq<ContactView>,
    pub next_recnum: u64,
}

impl RecnumPoolView {
    /// Sequence numbers start at 1, grow along the contacts and are all
    /// below the one that is given out next.
    pub open spec fn wf(self) -> bool {
        &&& 1 <= self.next_recnum
        &&& forall|i: int|
            0 <= i < self.contacts.len() ==> 1 <= (#[trigger] self.contacts[i]).id
                < self.next_recnum
        &&& forall|i: int, j: int|
            0 <= i < j < self.contacts.len() ==> (#[trigger] self.contacts[i]).id < (
            #[trigger] self.contacts[j]).id
    }

    /// Whether the contact with the sequence number `id` belongs to `person`.
    pub open spec fn is_contact_of(self, person: Seq<char>, id: u64) -> bool {
        exists|i: int|
            0 <= i < self.contacts.len() && (#[trigger] self.contacts[i]).id == id
                && self.contacts[i].person_id == person
    }

    /// The sequence numbers of the contacts of `person`.
    pub open spec fn contacts_of(self, person: Seq<char>) -> Set<u64> {
        Set::new(|id: u64| self.is_contact_of(person, id))
    }

    /// Whether `person` has a contact.
    pub open spec fn has_contact(self, person: Seq<char>) -> bool {
        exists|i: int|
            0 <= i < self.contacts.len() && (#[trigger] self.contacts[i]).person_id == person
    }

    /// Whether a contact has the sequence number `id`.
    pub open spec fn is_linked(self, id: u64) -> bool {
        exists|i: int| 0 <= i < self.contacts.len() && (#[trigger] self.contacts[i]).id == id
    }

    /// The pool after the next sequence number was given out without a
    /// contact.
    pub open spec fn with_unlinked(self) -> RecnumPoolView {
        RecnumPoolView { next_recnum: (self.next_recnum + 1) as u64, ..self }
    }

    /// The pool after the next sequence number was given to a new contact
    /// of `person` on `contact_date`.
    pub open spec fn with_contact(self, person: Seq<char>, contact_date: Date) -> RecnumPoolView {
        RecnumPoolView {
            contacts: self.contacts.push(
                ContactView { id: self.next_recnum, person_id: person, contact_date },
            ),
            next_recnum: (self.next_recnum + 1) as u64,
        }
    }
}

/// The text of a contact identifier: the sequence number in twenty digits.
pub open spec fn contact_id_text(id: int) -> Seq<char> {
    zero_padded(id as nat, 20)
}

/// `after` is `before` once a contact was asked for `person` in `year` and
/// `id` was given: if the person had contacts, `id` is one of them and the
/// pool is unchanged; else `id` is the next sequence number and belongs to a
/// new contact of the person, on one of the first 28 days of a month of
/// `year`.
pub open spec fn contact_obtained(
    before: RecnumPoolView,
    person: Seq<char>,
    year: int,
    id: u64,
    after: RecnumPoolView,
) -> bool {
    if before.has_contact(person) {
        before.is_contact_of(person, id) && after == before
    } else {
        &&& before.next_recnum < u64::MAX
        &&& id == before.next_recnum
        &&& exists|contact_date: Date|
            contact_date.is_random_day_of(year) && after == #[trigger] before.with_contact(
                person,
                contact_date,
            )
    }
}

/// `after` is `before` once the next sequence number was given out as `id`,
/// without a contact or to a new contact.
pub open spec fn recnum_allocated(before: RecnumPoolView, id: u64, after: RecnumPoolView) -> bool {
    &&& before.next_recnum < u64::MAX
    &&& id == before.next_recnum
    &&& (after == before.with_unlinked() || exists|person: Seq<char>, contact_date: Date|
        after == #[trigger] before.with_contact(person, contact_date))
}

/// The text of the contact identifier with the given sequence number.
pub fn contact_id_string(id: u64) -> (text: String)
    ensures
        text@ == contact_id_text(id as int),
{
    let mut text = String::new();
    push_zero_padded(&mut text, id, 20);
    assert(text@ =~= contact_id_text(id as int));
    text
}

/// The registry of contacts.
pub struct RecnumPool {
    contacts: Vec<ContactRecord>,
    /// For each person, where the contacts of the person stand in
    /// `contacts`: the places are kept under the number that stands for
    /// the person's identifier.
    by_person: HashMap<u64, Vec<usize>>,
    next_recnum: u64,
}

impl View for RecnumPool {
    type V = RecnumPoolView;

    closed spec fn view(&self) -> RecnumPoolView {
        RecnumPoolView {
            contacts: self.contacts@.map_values(|record: ContactRecord| record@),
            next_recnum: self.next_recnum,
        }
    }
}

impl RecnumPool {
    /// The places kept for a person are places of contacts of persons with
    /// that number, in growing order, and every contact has its place kept.
    pub closed spec fn indexed(&self) -> bool {
        &&& forall|hash: u64, j: int|
            self.by_person@.contains_key(hash) && 0 <= j < self.by_person@[hash]@.len() ==> {
                let place = #[trigger] self.by_person@[hash]@[j];
                place < self.contacts@.len() && text_hash(self.contacts@[place as int].person_id@)
                    == hash
            }
        &&& forall|hash: u64, j: int, k: int|
            self.by_person@.contains_key(hash) && 0 <= j < k < self.by_person@[hash]@.len()
                ==> #[trigger] self.by_person@[hash]@[j] < #[trigger] self.by_person@[hash]@[k]
        &&& forall|i: int|
            0 <= i < self.contacts@.len() ==> {
                let hash = text_hash((#[trigger] self.contacts@[i]).person_id@);
                self.by_person@.contains_key(hash) && self.by_person@[hash]@.contains(i as usize)
            }
    }

    pub open spec fn wf(&self) -> bool {
        self@.wf() && self.indexed()
    }

    /// An empty pool; the first sequence number is 1.
    pub fn new() -> (pool: RecnumPool)
        ensures
            pool.wf(),
            pool@.contacts == Seq::<ContactView>::empty(),
            pool@.next_recnum == 1,
    {
        let pool = RecnumPool { contacts: Vec::new(), by_person: HashMap::new(), next_recnum: 1 };
        assert(pool@.contacts =~= Seq::<ContactView>::empty());
        pool
    }

    /// The sequence number that is given out next.
    pub fn next_recnum(&self) -> (next: u64)
        ensures
            next == self@.next_recnum,
    {
        self.next_recnum
    }

    /// The number of contacts of persons.
    pub fn len(&self) -> (count: usize)
        ensures
            count == self@.contacts.len(),
    {
        self.contacts.len()
    }

    /// The contact with the sequence number `id`, if there is one.
    pub fn contact(&self, id: u64) -> (found: Option<ContactRecord>)
        requires
            self.wf(),
        ensures
            found is Some <==> self@.is_linked(id),
            found matches Some(record) ==> record.id == id && exists|i: int|
                0 <= i < self@.contacts.len() && #[trigger] self@.contacts[i] == record@,
    {
        let mut at: usize = 0;
        while at < self.contacts.len()
            invariant
                at <= self.contacts@.len(),
                forall|i: int| 0 <= i < at ==> (#[trigger] self@.contacts[i]).id != id,
            decreases self.contacts@.len() - at,
        {
            assert(self@.contacts[at as int] == self.contacts@[at as int]@);
            if self.contacts[at].id == id {
                let record = ContactRecord {
                    id,
                    person_id: self.contacts[at].person_id.clone(),
                    contact_date: self.contacts[at].contact_date,
                };
                assert(self@.contacts[at as int] == record@);
                return Some(record);
            }
            at = at + 1;
        }
        None
    }

    /// Gives out the next sequence number without a contact.
    pub fn generate_recnum(&mut self) -> (id: u64)
        requires
            old(self).wf(),
            old(self)@.next_recnum < u64::MAX,
        ensures
            final(self).wf(),
            id == old(self)@.next_recnum,
            final(self)@ == old(self)@.with_unlinked(),
    {
        let id: u64 = self.next_recnum;
        self.next_recnum = id + 1;
        assert(self@.contacts == old(self)@.contacts);
        id
    }

    /// Makes a contact of the person `pnr` on a random day of `year`, under
    /// the next sequence number, which is returned.
    pub fn add_contact(&mut self, pnr: &str, year: i32) -> (id: u64)
        requires
            old(self).wf(),
            old(self)@.next_recnum < u64::MAX,
            MIN_YEAR <= year <= MAX_YEAR,
        ensures
            final(self).wf(),
            id == old(self)@.next_recnum,
            exists|contact_date: Date|
                contact_date.is_random_day_of(year as int) && final(self)@ == #[trigger] old(
                    self,
                )@.with_contact(pnr@, contact_date),
    {
        let contact_date = Date::random_in_year(year);
        let ghost before = self@;
        let id = self.generate_recnum();
        let record = ContactRecord { id, person_id: pnr.to_owned(), contact_date };
        let place: usize = self.contacts.len();
        let hash: u64 = hash_text(pnr);
        let ghost contacts_before = self.contacts@;
        let ghost index_before = self.by_person@;
        let mut places: Vec<usize> = match self.by_person.remove(&hash) {
            Some(places) => places,
            None => Vec::new(),
        };
        let ghost places_before = places@;
        places.push(place);
        self.by_person.insert(hash, places);
        self.contacts.push(record);
        proof {
            assert(self@.contacts =~= before.contacts.push(record@));
            assert(self@ == before.with_contact(pnr@, contact_date));
            assert(forall|i: int|
                0 <= i < contacts_before.len() ==> self.contacts@[i] == contacts_before[i]);
            assert(index_before.contains_key(hash) ==> places_before == index_before[hash]@);
            assert(!index_before.contains_key(hash) ==> places_before.len() == 0);
            assert forall|other: u64, j: int|
                self.by_person@.contains_key(other) && 0 <= j
                    < self.by_person@[other]@.len() implies {
                let held = #[trigger] self.by_person@[other]@[j];
                held < self.contacts@.len() && text_hash(self.contacts@[held as int].person_id@)
                    == other
            } by {
                if other == hash {
                    if j < places_before.len() {
                        assert(self.by_person@[other]@[j] == index_before[hash]@[j]);
                    }
                } else {
                    assert(self.by_person@[other]@[j] == index_before[other]@[j]);
                }
            }
            assert forall|other: u64, j: int, k: int|
                self.by_person@.contains_key(other) && 0 <= j < k
                    < self.by_person@[other]@.len() implies #[trigger] self.by_person@[other]@[j]
                < #[trigger] self.by_person@[other]@[k] by {
                if other == hash {
                    assert(self.by_person@[other]@[j] == index_before[hash]@[j]);
                    if k < places_before.len() {
                        assert(self.by_person@[other]@[k] == index_before[hash]@[k]);
                    }
                } else {
                    assert(self.by_person@[other]@[j] == index_before[other]@[j]);
                    assert(self.by_person@[other]@[k] == index_before[other]@[k]);
                }
            }
            assert forall|i: int| 0 <= i < self.contacts@.len() implies {
                let other = text_hash((#[trigger] self.contacts@[i]).person_id@);
                self.by_person@.contains_key(other) && self.by_person@[other]@.contains(i as usize)
            } by {
                let other = text_hash(self.contacts@[i].person_id@);
                if i < contacts_before.len() {
                    assert(contacts_before[i] == self.contacts@[i]);
                    let held = index_before[other]@;
                    let j = choose|j: int| 0 <= j < held.len() && held[j] == i as usize;
                    assert(self.by_person@[other]@[j] == i as usize);
                } else {
                    assert(self.by_person@[hash]@[places_before.len() as int] == place);
                }
            }
        }
        id
    }

    /// The sequence numbers of the contacts of the person `pnr`.
    fn contact_ids_of(&self, pnr: &str) -> (found: Vec<u64>)
        requires
            self.wf(),
        ensures
            forall|id: u64|
                #![trigger found@.contains(id)]
                #![trigger self@.is_contact_of(pnr@, id)]
                found@.contains(id) <==> self@.is_contact_of(pnr@, id),
            found@.len() == 0 <==> !self@.has_contact(pnr@),
    {
        let wanted: String = pnr.to_owned();
        let hash: u64 = hash_text(pnr);
        let total: usize = self.contacts.len();
        let mut found: Vec<u64> = Vec::new();
        let places = match self.by_person.get(&hash) {
            Some(places) => places,
            None => {
                assert forall|i: int| 0 <= i < self@.contacts.len() implies (
                #[trigger] self@.contacts[i]).person_id != pnr@ by {
                    assert(self@.contacts[i] == self.contacts@[i]@);
                }
                return found;
            },
        };
        let mut at: usize = 0;
        while at < places.len()
            invariant
                self.wf(),
                at <= places@.len(),
                total == self.contacts@.len(),
                wanted@ == pnr@,
                hash == text_hash(pnr@),
                self.by_person@.contains_key(hash),
                places@ == self.by_person@[hash]@,
                forall|id: u64|
                    #![trigger found@.contains(id)]
                    found@.contains(id) <==> (exists|j: int|
                        0 <= j < at && self.contacts@[(#[trigger] places@[j]) as int].id == id
                            && self.contacts@[places@[j] as int].person_id@ == pnr@),
                found@.len() == 0 <==> (forall|j: int|
                    0 <= j < at ==> self.contacts@[(#[trigger] places@[j]) as int].person_id@
                        != pnr@),
            decreases places@.len() - at,
        {
            let ghost before = found@;
            let place: usize = places[at];
            assert(place == self.by_person@[hash]@[at as int]);
            if self.contacts[place].person_id == wanted {
                let id: u64 = self.contacts[place].id;
                found.push(id);
                assert(found@[before.len() as int] == id);
                assert(forall|k: int| 0 <= k < before.len() ==> found@[k] == before[k]);
            }
            at = at + 1;
            assert forall|id: u64|
                #![trigger found@.contains(id)]
                found@.contains(id) <==> (exists|j: int|
                    0 <= j < at && self.contacts@[(#[trigger] places@[j]) as int].id == id
                        && self.contacts@[places@[j] as int].person_id@ == pnr@) by {
                if found@.contains(id) {
                    if before.contains(id) {
                    } else {
                        assert(self.contacts@[places@[at - 1] as int].id == id);
                    }
                }
                if exists|j: int|
                    0 <= j < at && self.contacts@[(#[trigger] places@[j]) as int].id == id
                        && self.contacts@[places@[j] as int].person_id@ == pnr@ {
                    let j = choose|j: int|
                        0 <= j < at && self.contacts@[(#[trigger] places@[j]) as int].id == id
                            && self.contacts@[places@[j] as int].person_id@ == pnr@;
                    if j < at - 1 {
                        assert(before.contains(id));
                        let k = choose|k: int| 0 <= k < before.len() && before[k] == id;
                        assert(found@[k] == id);
                    } else {
                        assert(found@[before.len() as int] == id);
                    }
                }
            }
        }
        proof {
            assert forall|id: u64|
                #![trigger found@.contains(id)]
                #![trigger self@.is_contact_of(pnr@, id)]
                found@.contains(id) <==> self@.is_contact_of(pnr@, id) by {
                if found@.contains(id) {
                    let j = choose|j: int|
                        0 <= j < at && self.contacts@[(#[trigger] places@[j]) as int].id == id
                            && self.contacts@[places@[j] as int].person_id@ == pnr@;
                    let i = places@[j] as int;
                    assert(self@.contacts[i] == self.contacts@[i]@);
                }
                if self@.is_contact_of(pnr@, id) {
                    let i = choose|i: int|
                        0 <= i < self@.contacts.len() && (#[trigger] self@.contacts[i]).id == id
                            && self@.contacts[i].person_id == pnr@;
                    assert(self@.contacts[i] == self.contacts@[i]@);
                    assert(text_hash(self.contacts@[i].person_id@) == hash);
                    assert(places@.contains(i as usize));
                    let j = choose|j: int| 0 <= j < places@.len() && places@[j] == i as usize;
                    assert(self.contacts@[places@[j] as int].id == id);
                }
            }
            if found@.len() == 0 {
                assert forall|i: int| 0 <= i < self@.contacts.len() implies (
                #[trigger] self@.contacts[i]).person_id != pnr@ by {
                    assert(self@.contacts[i] == self.contacts@[i]@);
                    if self.contacts@[i].person_id@ == pnr@ {
                        assert(text_hash(self.contacts@[i].person_id@) == hash);
                        assert(places@.contains(i as usize));
                        let j = choose|j: int| 0 <= j < places@.len() && places@[j] == i as usize;
                        assert(self.contacts@[places@[j] as int].person_id@ == pnr@);
                    }
                }
            } else {
                let id = found@[0];
                assert(found@.contains(id));
                let j = choose|j: int|
                    0 <= j < at && self.contacts@[(#[trigger] places@[j]) as int].id == id
                        && self.contacts@[places@[j] as int].person_id@ == pnr@;
                let i = places@[j] as int;
                assert(self@.contacts[i] == self.contacts@[i]@);
                assert(self@.contacts[i].person_id == pnr@);
            }
        }
        found
    }

    /// One of the contacts of the person `pnr`, chosen at random; `None` if
    /// the person has none.
    pub fn get_random_recnum_for_pnr(&self, pnr: &str) -> (chosen: Option<u64>)
        requires
            self.wf(),
        ensures
            match chosen {
                Some(id) => self@.is_contact_of(pnr@, id),
                None => !self@.has_contact(pnr@),
            },
    {
        let ids = self.contact_ids_of(pnr);
        pick_id(&ids)
    }

    /// A contact of the person `pnr`: one that the person has, chosen at
    /// random, whatever its year; or, if the person has none, a new one in
    /// `year`.
    pub fn get_or_create_recnum_for_pnr(&mut self, pnr: &str, year: i32) -> (id: u64)
        requires
            old(self).wf(),
            !old(self)@.has_contact(pnr@) ==> old(self)@.next_recnum < u64::MAX && MIN_YEAR
                <= year <= MAX_YEAR,
        ensures
            final(self).wf(),
            contact_obtained(old(self)@, pnr@, year as int, id, final(self)@),
    {
        match self.get_random_recnum_for_pnr(pnr) {
            Some(id) => id,
            None => self.add_contact(pnr, year),
        }
    }

    /// The sequence number of a contact chosen at random among all contacts
    /// of persons. The pool must hold one.
    pub fn get_random_recnum(&self) -> (id: u64)
        requires
            self.wf(),
            self@.contacts.len() > 0,
        ensures
            self@.is_linked(id),
    {
        match choose_one(self.contacts.as_slice()) {
            Some(record) => {
                proof {
                    let i = choose|i: int|
                        0 <= i < self.contacts@.len() && self.contacts@[i] == *record;
                    assert(self@.contacts[i] == self.contacts@[i]@);
                }
                record.id
            },
            None => unreached(),
        }
    }
}

/// The text of the identifier of a contact of the person `pnr`, obtained as
/// `get_or_create_recnum_for_pnr` does.
pub fn get_recnum_for_pnr(pool: &mut RecnumPool, pnr: &str, year: i32) -> (recnum: String)
    requires
        old(pool).wf(),
        !old(pool)@.has_contact(pnr@) ==> old(pool)@.next_recnum < u64::MAX && MIN_YEAR <= year
            <= MAX_YEAR,
    ensures
        final(pool).wf(),
        exists|id: u64|
            recnum@ == contact_id_text(id as int) && #[trigger] contact_obtained(
                old(pool)@,
                pnr@,
                year as int,
                id,
                final(pool)@,
            ),
{
    let id = pool.get_or_create_recnum_for_pnr(pnr, year);
    contact_id_string(id)
}

/// The text of the identifier of a contact chosen at random among all
/// contacts of persons. The pool must hold one.
pub fn get_random_recnum(pool: &RecnumPool) -> (recnum: String)
    requires
        pool.wf(),
        pool@.contacts.len() > 0,
    ensures
        exists|id: u64| recnum@ == contact_id_text(id as int) && #[trigger] pool@.is_linked(id),
{
    let id = pool.get_random_recnum();
    contact_id_string(id)
}

/// Gives out the next sequence number without a contact and returns the
/// text of the identifier.
pub fn generate_recnum(pool: &mut RecnumPool) -> (recnum: String)
    requires
        old(pool).wf(),
        old(pool)@.next_recnum < u64::MAX,
    ensures
        final(pool).wf(),
        recnum@ == contact_id_text(old(pool)@.next_recnum as int),
        final(pool)@ == old(pool)@.with_unlinked(),
{
    let id = pool.generate_recnum();
    contact_id_string(id)
}

} // verus!
