use cachingmap::{AsyncCachingMap, Produced};
use std::cell::Cell;

#[test]
fn first_write_wins() {
    let mut cache = AsyncCachingMap::<u64, String>::new();
    let r1 = cache.cache(1, String::from("something"));
    assert!(r1.is_new());
    assert_eq!(cache.get(1), Some(&String::from("something")));
    let r2 = cache.cache(1, String::from("something else"));
    assert!(r2.is_old());
    assert_eq!(cache.get(1), Some(&String::from("something")));
    assert_eq!(r1.slot(), r2.slot());
    assert_eq!(cache.len(), 1);
}

#[test]
fn borrow_short_circuit() {
    let mut cache = AsyncCachingMap::<u64, String>::new();
    let r = cache.cached_cow(5, |_| Produced::Borrowed(String::from("outside")));
    assert!(r.is_ext());
    assert_eq!(r.ext_value(), Some(&String::from("outside")));
    assert_eq!(r.slot(), None);
    assert_eq!(cache.len(), 0);
    assert!(cache.get(5).is_none());
}

#[test]
fn owned_result_is_cached() {
    let mut cache = AsyncCachingMap::<u64, String>::new();
    let r1 = cache.cached_cow(5, |_| Produced::Owned(String::from("kept")));
    assert!(r1.is_new());
    assert_eq!(cache.get(5), Some(&String::from("kept")));
    let r2 = cache.cached_cow(5, |_| Produced::Owned(String::from("later")));
    assert!(r2.is_old());
    assert_eq!(r1.slot(), r2.slot());
    assert_eq!(cache.get(5), Some(&String::from("kept")));
}

#[test]
fn removal_resets_the_cycle() {
    let mut cache = AsyncCachingMap::<u64, String>::new();
    let r1 = cache.cache(1, String::from("a"));
    assert!(r1.is_new());
    assert_eq!(cache.remove(1), Some(String::from("a")));
    assert!(cache.get(1).is_none());
    let r2 = cache.cached(1, |_| String::from("b"));
    assert!(r2.is_new());
    assert_eq!(cache.get(1), Some(&String::from("b")));
}

#[test]
fn remove_absent_key_is_none() {
    let mut cache = AsyncCachingMap::<u64, u64>::new();
    assert!(cache.remove(77).is_none());
    cache.cache(1, 10);
    assert!(cache.remove(77).is_none());
    assert_eq!(cache.len(), 1);
}

#[test]
fn clear_empties_fully() {
    let mut cache = AsyncCachingMap::<u64, u64>::new();
    cache.cache(1, 10);
    cache.cache(2, 20);
    cache.cache(3, 30);
    assert_eq!(cache.len(), 3);
    cache.clear();
    assert_eq!(cache.len(), 0);
    assert!(cache.get(1).is_none());
    assert!(cache.get(2).is_none());
    assert!(cache.get(3).is_none());
}

#[test]
fn hit_path_never_reinvokes_producer() {
    let calls = Cell::new(0usize);
    let mut cache = AsyncCachingMap::<usize, usize>::new();
    let r1 = cache.cached(9, |_| {
        calls.set(calls.get() + 1);
        42
    });
    assert!(r1.is_new());
    let r2 = cache.cached(9, |_| {
        calls.set(calls.get() + 1);
        43
    });
    assert!(r2.is_old());
    let r3 = cache.cached(9, |_| {
        calls.set(calls.get() + 1);
        44
    });
    assert!(r3.is_old());
    assert_eq!(calls.get(), 1);
    assert_eq!(cache.get(9), Some(&42));
}

#[test]
fn clone_follows_the_strategy() {
    let mut cache = AsyncCachingMap::<u64, String>::new();
    cache.cache(1, String::from("a"));
    cache.cache(2, String::from("b"));
    let full = cache.clone();
    assert!(full.full_clone());
    assert_eq!(full.len(), 2);
    assert_eq!(full.get(1), Some(&String::from("a")));
    assert_eq!(full.get(2), Some(&String::from("b")));
    cache.set_full_clone(false);
    let fresh = cache.clone();
    assert!(!fresh.full_clone());
    assert_eq!(fresh.len(), 0);
    assert!(fresh.get(1).is_none());
    assert_eq!(cache.len(), 2);
}

#[test]
fn clone_strategy_accessors() {
    let mut m = AsyncCachingMap::<u64, u64>::with_full_clone(false);
    assert!(!m.full_clone());
    m.set_full_clone(true);
    assert!(m.full_clone());
    assert!(AsyncCachingMap::<u64, u64>::new().full_clone());
    assert!(AsyncCachingMap::<u64, u64>::default().full_clone());
    assert_eq!(AsyncCachingMap::<u64, u64>::default().len(), 0);
}
