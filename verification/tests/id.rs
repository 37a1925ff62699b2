use lum_service::id::{get_unique_id, IdCounter};

#[test]
fn ids_count_up_from_zero() {
    let mut counter = IdCounter::new();
    assert_eq!(get_unique_id(&mut counter), 0);
    assert_eq!(get_unique_id(&mut counter), 1);
    assert_eq!(get_unique_id(&mut counter), 2);
    assert_eq!(counter.peek(), 3);
}

#[test]
fn ids_are_distinct_until_wrap() {
    let mut counter = IdCounter::starting_at(1000);
    let mut seen = std::collections::HashSet::new();
    for _ in 0..100 {
        assert!(seen.insert(get_unique_id(&mut counter)));
    }
}

#[test]
fn ids_wrap_after_max() {
    let mut counter = IdCounter::starting_at(u64::MAX - 1);
    assert_eq!(get_unique_id(&mut counter), u64::MAX - 1);
    assert_eq!(get_unique_id(&mut counter), u64::MAX);
    assert_eq!(get_unique_id(&mut counter), 0);
    assert_eq!(get_unique_id(&mut counter), 1);
}
