use webrs::Headers;

#[test]
fn new_map_is_empty() {
    let h = Headers::new();
    assert_eq!(h.len(), 0);
    assert!(h.get("a").is_none());
    assert!(!h.contains_key("a"));
}

#[test]
fn insert_appends_new_keys_in_order() {
    let mut h = Headers::new();
    h.insert("b".to_string(), "1".to_string());
    h.insert("a".to_string(), "2".to_string());
    h.insert("c".to_string(), "3".to_string());
    assert_eq!(h.len(), 3);
    assert_eq!(h.key_at(0), "b");
    assert_eq!(h.key_at(1), "a");
    assert_eq!(h.key_at(2), "c");
    assert_eq!(h.value_at(1), "2");
}

#[test]
fn insert_replaces_the_value_where_the_key_stands() {
    let mut h = Headers::new();
    h.insert("a".to_string(), "1".to_string());
    h.insert("b".to_string(), "2".to_string());
    h.insert("a".to_string(), "3".to_string());
    assert_eq!(h.len(), 2);
    assert_eq!(h.key_at(0), "a");
    assert_eq!(h.value_at(0), "3");
    assert_eq!(h.get("a").unwrap(), "3");
    assert_eq!(h.get("b").unwrap(), "2");
}

#[test]
fn keys_are_compared_letter_for_letter() {
    let mut h = Headers::new();
    h.insert("Accept".to_string(), "1".to_string());
    h.insert("accept".to_string(), "2".to_string());
    assert_eq!(h.len(), 2);
    assert_eq!(h.get("Accept").unwrap(), "1");
    assert_eq!(h.get("accept").unwrap(), "2");
    assert!(!h.contains_key("ACCEPT"));
    assert!(h.contains_key("accept"));
}

#[test]
fn clone_copies_every_entry() {
    let mut h = Headers::new();
    h.insert("a".to_string(), "1".to_string());
    h.insert("b".to_string(), "2".to_string());
    let mut c = h.clone();
    assert_eq!(c.len(), 2);
    assert_eq!(c.get("a").unwrap(), "1");
    assert_eq!(c.get("b").unwrap(), "2");
    c.insert("a".to_string(), "9".to_string());
    assert_eq!(h.get("a").unwrap(), "1");
}
