use linkwatch::counter::Counter;

#[test]
fn entries_keep_insertion_order() {
    let mut c = Counter::new();
    c.add_count(&"zeta".to_string(), 0).unwrap();
    c.add_count(&"alpha".to_string(), 0).unwrap();
    c.add_count(&"mid".to_string(), 0).unwrap();

    assert_eq!(c.len(), 3);
    assert_eq!(c.entry_at(0), ("zeta".to_string(), 0));
    assert_eq!(c.entry_at(1), ("alpha".to_string(), 0));
    assert_eq!(c.entry_at(2), ("mid".to_string(), 0));
}

#[test]
fn adding_under_a_known_name_accumulates_in_place() {
    let mut c = Counter::new();
    c.add_count(&"a".to_string(), 1).unwrap();
    c.add_count(&"b".to_string(), 10).unwrap();
    c.add_count(&"a".to_string(), 4).unwrap();

    assert_eq!(c.len(), 2);
    assert_eq!(c.entry_at(0), ("a".to_string(), 5));
    assert_eq!(c.entry_at(1), ("b".to_string(), 10));
}

#[test]
fn adding_beyond_the_counter_width_is_refused() {
    let mut c = Counter::new();
    c.add_count(&"a".to_string(), u64::MAX).unwrap();

    assert!(c.add_count(&"a".to_string(), 1).is_none());
    assert_eq!(c.entry_at(0), ("a".to_string(), u64::MAX));
}
