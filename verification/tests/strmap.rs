use reqx::strmap::StringMap;

#[test]
fn new_map_is_empty() {
    let map = StringMap::new();
    assert_eq!(map.len(), 0);
    assert!(map.get("a").is_none());
    assert!(!map.contains_key("a"));
}

#[test]
fn insert_then_get() {
    let mut map = StringMap::new();
    map.insert("a".to_string(), "1".to_string());
    map.insert("b".to_string(), "2".to_string());
    assert_eq!(map.get("a").unwrap(), "1");
    assert_eq!(map.get("b").unwrap(), "2");
    assert!(map.get("c").is_none());
    assert!(map.contains_key("a"));
    assert_eq!(map.len(), 2);
}

#[test]
fn later_insert_shadows_earlier() {
    let mut map = StringMap::new();
    map.insert("a".to_string(), "1".to_string());
    map.insert("b".to_string(), "2".to_string());
    map.insert("a".to_string(), "3".to_string());
    assert_eq!(map.get("a").unwrap(), "3");
    assert_eq!(map.get("b").unwrap(), "2");
    assert_eq!(map.len(), 2);
    assert_eq!(map.name_at(0), "a");
    assert_eq!(map.text_at(0), "3");
    assert_eq!(map.name_at(1), "b");
}

#[test]
fn names_are_case_sensitive() {
    let mut map = StringMap::new();
    map.insert("Content-Type".to_string(), "json".to_string());
    assert!(map.get("content-type").is_none());
    assert_eq!(map.get("Content-Type").unwrap(), "json");
}

#[test]
fn from_pairs_last_wins() {
    let map = StringMap::from_pairs(vec![
        ("x".to_string(), "1".to_string()),
        ("y".to_string(), "2".to_string()),
        ("x".to_string(), "3".to_string()),
    ]);
    assert_eq!(map.len(), 2);
    assert_eq!(map.get("x").unwrap(), "3");
    assert_eq!(map.get("y").unwrap(), "2");
}

#[test]
fn clone_holds_the_same() {
    let mut map = StringMap::new();
    map.insert("a".to_string(), "1".to_string());
    let copy = map.clone();
    map.insert("a".to_string(), "2".to_string());
    assert_eq!(copy.get("a").unwrap(), "1");
    assert_eq!(map.get("a").unwrap(), "2");
}

#[test]
fn empty_name_and_text_are_held() {
    let mut map = StringMap::new();
    map.insert(String::new(), String::new());
    assert_eq!(map.get("").unwrap(), "");
    assert_eq!(map.len(), 1);
}
