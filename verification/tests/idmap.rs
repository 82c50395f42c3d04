use cosmic_term::idmap::IdMap;

#[test]
fn keys_stay_ordered() {
    let mut m = IdMap::new();
    m.insert(5, "five");
    m.insert(1, "one");
    m.insert(3, "three");
    m.insert(3, "THREE");
    assert_eq!(m.keys(), vec![1, 3, 5]);
    assert_eq!(m.get(3), Some(&"THREE"));
    assert_eq!(m.last_key(), Some(5));
    assert_eq!(m.remove(1), Some("one"));
    assert_eq!(m.remove(1), None);
    assert_eq!(m.keys(), vec![3, 5]);
}

#[test]
fn next_key_follows_the_last() {
    let mut m = IdMap::new();
    assert_eq!(m.insert_next('a'), 0);
    m.insert(10, 'b');
    assert_eq!(m.insert_next('c'), 11);
    assert_eq!(m.last_key(), Some(11));
}
