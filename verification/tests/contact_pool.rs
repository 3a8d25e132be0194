use cdef_data_generator::generate::recnum::{
    generate_recnum, get_random_recnum, get_recnum_for_pnr, RecnumPool,
};

#[test]
fn new_contact_pool_starts_at_one() {
    let pool = RecnumPool::new();
    assert_eq!(pool.next_recnum(), 1);
    assert_eq!(pool.len(), 0);
    assert_eq!(pool.get_random_recnum_for_pnr("150320-2124"), None);
}

#[test]
fn first_contact_of_a_person_is_minted_and_then_reused() {
    let mut pool = RecnumPool::new();
    let first = get_recnum_for_pnr(&mut pool, "150320-2124", 2020);
    assert_eq!(first, "00000000000000000001");
    assert_eq!(pool.len(), 1);
    // Any later request for the person, in whatever year, gives a contact
    // that the person has.
    for year in [2020, 2021, 1999] {
        assert_eq!(get_recnum_for_pnr(&mut pool, "150320-2124", year), first);
    }
    assert_eq!(pool.len(), 1);
    assert_eq!(pool.next_recnum(), 2);
    assert_eq!(pool.get_random_recnum_for_pnr("150320-2124"), Some(1));
}

#[test]
fn contact_identifiers_grow_and_are_not_reused() {
    let mut pool = RecnumPool::new();
    let a = get_recnum_for_pnr(&mut pool, "person a", 2020);
    let unlinked = generate_recnum(&mut pool);
    let b = get_recnum_for_pnr(&mut pool, "person b", 2020);
    let again = generate_recnum(&mut pool);
    assert_eq!(a, "00000000000000000001");
    assert_eq!(unlinked, "00000000000000000002");
    assert_eq!(b, "00000000000000000003");
    assert_eq!(again, "00000000000000000004");
    assert!(a < unlinked && unlinked < b && b < again);
    assert_eq!(pool.next_recnum(), 5);
    // Numbers given out without a contact belong to nobody.
    assert_eq!(pool.len(), 2);
    for _ in 0..50 {
        let any = get_random_recnum(&pool);
        assert!(any == a || any == b);
    }
}

#[test]
fn contact_is_dated_in_the_year_asked_for() {
    let mut pool = RecnumPool::new();
    let id = pool.add_contact("010101-4000", 2015);
    assert_eq!(id, 1);
    let record = pool.contact(1).unwrap();
    assert_eq!(record.id, 1);
    assert_eq!(record.person_id, "010101-4000");
    assert_eq!(record.contact_date.year(), 2015);
    assert!((1..=12).contains(&record.contact_date.month()));
    assert!((1..=28).contains(&record.contact_date.day()));
    assert!(pool.contact(2).is_none());
    assert!(pool.contact(0).is_none());
    let second = pool.add_contact("010101-4000", 2016);
    assert_eq!(second, 2);
    // A person may have several contacts; one of them is given.
    for _ in 0..50 {
        let chosen = pool.get_or_create_recnum_for_pnr("010101-4000", 2030);
        assert!(chosen == 1 || chosen == 2);
    }
    assert_eq!(pool.len(), 2);
}

#[test]
fn persons_are_told_apart_by_the_whole_text() {
    let mut pool = RecnumPool::new();
    let a = pool.get_or_create_recnum_for_pnr("150320-2124", 2020);
    let b = pool.get_or_create_recnum_for_pnr("150320-2125", 2020);
    let c = pool.get_or_create_recnum_for_pnr("", 2020);
    assert_eq!((a, b, c), (1, 2, 3));
    assert_eq!(pool.get_or_create_recnum_for_pnr("", 2021), 3);
    assert_eq!(pool.get_or_create_recnum_for_pnr("150320-2125", 2021), 2);
}

#[test]
fn many_persons_keep_their_own_contacts() {
    let mut pool = RecnumPool::new();
    let persons: Vec<String> = (0..5000).map(|i| format!("{:06}-{:04}", i % 977, i)).collect();
    for (index, person) in persons.iter().enumerate() {
        assert_eq!(pool.get_or_create_recnum_for_pnr(person, 2020), index as u64 + 1);
    }
    for (index, person) in persons.iter().enumerate().rev() {
        assert_eq!(pool.get_or_create_recnum_for_pnr(person, 2021), index as u64 + 1);
        assert_eq!(pool.get_random_recnum_for_pnr(person), Some(index as u64 + 1));
    }
    assert_eq!(pool.len(), 5000);
    assert_eq!(pool.next_recnum(), 5001);
    assert_eq!(pool.get_random_recnum_for_pnr("nobody"), None);
}
