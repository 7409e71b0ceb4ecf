use llmkeys::strmap::StrMap;

#[test]
fn strmap_keeps_keys_sorted_and_unique() {
    let mut m: StrMap<String> = StrMap::new();
    assert!(m.is_empty());
    m.insert("b".into(), "2".into());
    m.insert("a".into(), "1".into());
    m.insert("é".into(), "3".into());
    m.insert("Z".into(), "0".into());
    m.insert("a".into(), "1-again".into());
    assert_eq!(m.len(), 4);
    let keys: Vec<&str> = (0..m.len()).map(|i| m.key_at(i).as_str()).collect();
    assert_eq!(keys, vec!["Z", "a", "b", "é"]);
    assert_eq!(m.get("a").map(String::as_str), Some("1-again"));
    assert_eq!(m.value_at(0), "0");
    assert!(m.contains_key("é"));
    assert!(!m.contains_key("c"));
}

#[test]
fn strmap_take_and_extend() {
    let mut m: StrMap<String> = StrMap::new();
    m.insert("x".into(), "1".into());
    m.insert("y".into(), "2".into());
    assert_eq!(m.take("x"), Some("1".to_string()));
    assert_eq!(m.take("x"), None);
    assert_eq!(m.len(), 1);
    let mut other: StrMap<String> = StrMap::new();
    other.insert("y".into(), "20".into());
    other.insert("z".into(), "30".into());
    m.extend_from(&other);
    assert_eq!(m.len(), 2);
    assert_eq!(m.get("y").map(String::as_str), Some("20"));
    let copy = m.clone();
    assert_eq!(copy.get("z").map(String::as_str), Some("30"));
}
