use typesafe::OrderedMap;

#[test]
fn insert_replaces_in_place() {
    let mut map = OrderedMap::new();
    map.insert("a", 1).insert("b", 2).insert("a", 9);
    assert_eq!(map.keys(), ["a", "b"]);
    assert_eq!(map.get("a"), Some(&9));
    assert_eq!(map.len(), 2);
}

#[test]
fn preserves_insertion_order() {
    let map: OrderedMap<u8> = OrderedMap::from_entries(vec![
        ("zebra".to_string(), 1u8),
        ("apple".to_string(), 2),
        ("mango".to_string(), 3),
    ]);
    assert_eq!(map.keys(), ["zebra", "apple", "mango"]);
    assert_eq!(map.iter(), [("zebra", &1u8), ("apple", &2), ("mango", &3)]);
}

#[test]
fn reading_after_writing_gives_the_written_value() {
    let mut map: OrderedMap<&str> = OrderedMap::default();
    assert!(map.is_empty());
    assert_eq!(map.get("k"), None);
    map.insert("k", "first");
    assert_eq!(map.get("k"), Some(&"first"));
    map.insert("other", "x");
    assert_eq!(map.get("k"), Some(&"first"));
    map.insert("k", "second");
    assert_eq!(map.get("k"), Some(&"second"));
    assert_eq!(map.get("other"), Some(&"x"));
    assert_eq!(map.keys(), ["k", "other"]);
    assert!(!map.is_empty());
}

#[test]
fn later_duplicates_replace_earlier_values_in_place() {
    let map = OrderedMap::from_entries(vec![
        ("a".to_string(), 1),
        ("b".to_string(), 2),
        ("a".to_string(), 3),
    ]);
    assert_eq!(map.iter(), [("a", &3), ("b", &2)]);
    let copy = map.clone();
    assert_eq!(copy, map);
}
