use cachingmap::AsyncCachingMap;

#[test]
fn test_stability() {
    let mut cache = AsyncCachingMap::<usize, usize>::default();
    let key: usize = 12523;
    let first = cache.cached(key, |_| 25);
    for i in 1..10000 {
        cache.cached(i, |i| 5 * i + 8);
    }
    let after = cache.cached(key, |_| 1);

    assert!(first.is_new());
    assert!(after.is_old());
    assert!(std::ptr::eq(
        cache.value_at(first.slot().unwrap()),
        cache.value_at(after.slot().unwrap())
    ));
    assert_eq!(cache.get(key), Some(&25));
}
