use trivy_web::strmap::StringMap;

#[test]
fn empty_map_binds_nothing() {
    let map = StringMap::new();
    assert_eq!(map.get("a"), None);
    assert!(!map.contains_key(""));
}

#[test]
fn latest_entry_counts() {
    let mut map = StringMap::new();
    map.insert("a".to_string(), "1".to_string());
    map.insert("b".to_string(), "2".to_string());
    map.insert("a".to_string(), "3".to_string());
    assert_eq!(map.get("a"), Some(&"3".to_string()));
    assert_eq!(map.get("b"), Some(&"2".to_string()));
    assert_eq!(map.get("c"), None);
    assert!(map.contains_key("b"));
    assert!(!map.contains_key("ab"));
}

fn map(entries: &[(&str, &str)]) -> StringMap {
    let mut map = StringMap::new();
    for (key, value) in entries {
        map.insert(key.to_string(), value.to_string());
    }
    map
}

#[test]
fn maps_with_the_same_bindings_are_equal() {
    assert_eq!(StringMap::new(), StringMap::new());
    assert_eq!(map(&[("a", "1"), ("b", "2")]), map(&[("b", "2"), ("a", "1")]));
    assert_eq!(map(&[("a", "0"), ("a", "1")]), map(&[("a", "1")]));
    assert_ne!(map(&[("a", "1")]), map(&[("a", "2")]));
    assert_ne!(map(&[("a", "1")]), map(&[("a", "1"), ("b", "2")]));
    assert_ne!(map(&[("a", "1"), ("b", "2")]), map(&[("a", "1")]));
    assert_ne!(map(&[("a", "1")]), StringMap::new());
    assert_ne!(map(&[("a", "1"), ("a", "0")]), map(&[("a", "1")]));
}

#[test]
fn within_compares_bindings() {
    assert!(StringMap::new().within(&map(&[("a", "1")])));
    assert!(map(&[("a", "1")]).within(&map(&[("b", "2"), ("a", "1")])));
    assert!(!map(&[("a", "1"), ("c", "3")]).within(&map(&[("b", "2"), ("a", "1")])));
    assert!(!map(&[("a", "1")]).within(&map(&[("a", "2")])));
}
