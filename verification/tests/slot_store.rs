use cachingmap::StableSlotStore;

#[test]
fn insert_if_absent_keeps_first_value() {
    let mut s = StableSlotStore::<u64, u64>::new();
    assert_eq!(s.len(), 0);
    let (slot1, inserted1) = s.insert_if_absent(3, 30);
    assert!(inserted1);
    assert_eq!(slot1, 0);
    let (slot2, inserted2) = s.insert_if_absent(3, 99);
    assert!(!inserted2);
    assert_eq!(slot2, 0);
    assert_eq!(s.get(3), Some(&30));
    assert_eq!(s.len(), 1);
}

#[test]
fn slots_are_stable_across_insertions() {
    let mut s = StableSlotStore::<u64, u64>::new();
    let (slot, _) = s.insert_if_absent(10, 100);
    for i in 0..100 {
        s.insert_if_absent(i, i);
    }
    assert_eq!(s.value_at(slot), &100);
    assert!(std::ptr::eq(s.value_at(slot), s.get(10).unwrap()));
    assert_eq!(s.len(), 100);
}

#[test]
fn remove_and_clear_are_the_reset_points() {
    let mut s = StableSlotStore::<u64, String>::new();
    s.insert_if_absent(1, String::from("one"));
    s.insert_if_absent(2, String::from("two"));
    assert_eq!(s.remove(1), Some(String::from("one")));
    assert_eq!(s.remove(1), None);
    assert_eq!(s.get(1), None);
    assert_eq!(s.get(2), Some(&String::from("two")));
    s.clear();
    assert_eq!(s.len(), 0);
    assert_eq!(s.get(2), None);
}
