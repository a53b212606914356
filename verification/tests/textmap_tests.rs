use taphttp::textmap::TextMap;

#[test]
fn insert_then_get() {
    let mut m: TextMap<String> = TextMap::new();
    assert_eq!(m.get("accept"), None);
    m.insert("accept".to_string(), "*/*".to_string());
    m.insert("user-agent".to_string(), "curl/8.4.0".to_string());
    assert_eq!(m.get("accept"), Some(&"*/*".to_string()));
    assert_eq!(m.get("user-agent"), Some(&"curl/8.4.0".to_string()));
    assert!(m.contains_key("accept"));
    assert!(!m.contains_key("Accept"));
    assert_eq!(m.len(), 2);
}

#[test]
fn insert_replaces_value_in_place() {
    let mut m: TextMap<u32> = TextMap::new();
    m.insert("a".to_string(), 1);
    m.insert("b".to_string(), 2);
    m.insert("a".to_string(), 3);
    assert_eq!(m.len(), 2);
    assert_eq!(m.get("a"), Some(&3));
    assert_eq!(m.entries(), &vec![("a".to_string(), 3), ("b".to_string(), 2)]);
}

#[test]
fn from_pairs_later_pair_wins() {
    let m = TextMap::from_pairs(vec![
        ("x".to_string(), 1),
        ("y".to_string(), 2),
        ("x".to_string(), 9),
    ]);
    assert_eq!(m.len(), 2);
    assert_eq!(m.get("x"), Some(&9));
    assert_eq!(m.get("y"), Some(&2));
    assert_eq!(m.get("z"), None);
}

#[test]
fn remove_ignoring_case_drops_all_spellings() {
    let mut m = TextMap::from_pairs(vec![
        ("Accept".to_string(), 1),
        ("x".to_string(), 2),
        ("ACCEPT".to_string(), 3),
    ]);
    m.remove_ignoring_case("accept");
    assert_eq!(m.len(), 1);
    assert_eq!(m.get("x"), Some(&2));
}
