use cachingmap::LazyMap;
use std::cell::Cell;

#[test]
fn computes_on_first_access_only() {
    let calls = Cell::new(0usize);
    let mut map = LazyMap::new(|k| {
        calls.set(calls.get() + 1);
        (k as usize) * 2
    });
    assert_eq!(*map.get(4), 8);
    assert_eq!(*map.get(4), 8);
    assert_eq!(*map.get(4), 8);
    assert_eq!(calls.get(), 1);
    assert_eq!(map.len(), 1);
    assert_eq!(*map.get(5), 10);
    assert_eq!(calls.get(), 2);
    assert_eq!(map.len(), 2);
}

#[test]
fn remove_restarts_the_cycle() {
    let calls = Cell::new(0usize);
    let mut map = LazyMap::new(|k| {
        calls.set(calls.get() + 1);
        format!("Computed for seed {}", k)
    });
    assert_eq!(map.get(1), "Computed for seed 1");
    assert_eq!(map.remove(&1), Some(String::from("Computed for seed 1")));
    assert_eq!(map.len(), 0);
    assert_eq!(map.get(1), "Computed for seed 1");
    assert_eq!(calls.get(), 2);
    assert_eq!(map.remove(&8), None);
}

#[test]
fn clear_forgets_every_entry() {
    let mut map = LazyMap::new(|k| k + 1);
    map.get(1);
    map.get(2);
    map.get(3);
    assert_eq!(map.len(), 3);
    map.clear();
    assert_eq!(map.len(), 0);
    assert_eq!(*map.get(2), 3);
    assert_eq!(map.len(), 1);
}
