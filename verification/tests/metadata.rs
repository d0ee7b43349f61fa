use proto_service::metadata::MetadataMap;

#[test]
fn insert_and_get() {
    let mut m = MetadataMap::new();
    m.insert("content-type", "application/grpc");
    assert_eq!(m.get_first("content-type"), Some("application/grpc"));
    assert_eq!(m.get_first("missing"), None);
}

#[test]
fn keys_are_case_insensitive() {
    let mut m = MetadataMap::new();
    m.insert("Content-Type", "application/grpc");
    // Lookup with any casing hits the same entry.
    assert_eq!(m.get_first("content-type"), Some("application/grpc"));
    assert_eq!(m.get_first("CONTENT-TYPE"), Some("application/grpc"));
    // Appending with different casing extends the same key rather than forking it.
    m.append("CONTENT-type", "extra");
    assert_eq!(m.get_all("content-type").len(), 2);
    assert_eq!(m.len(), 1);
    // Stored key is normalized to lowercase.
    assert_eq!(
        m.keys().iter().map(|k| k.as_str()).collect::<Vec<_>>(),
        vec!["content-type"]
    );
}

#[test]
fn append_and_get_all() {
    let mut m = MetadataMap::new();
    m.append("x-custom", "a");
    m.append("x-custom", "b");
    assert_eq!(m.get_first("x-custom"), Some("a"));
    assert_eq!(m.get_all("x-custom").len(), 2);
}

#[test]
fn insert_replaces() {
    let mut m = MetadataMap::new();
    m.append("key", "first");
    m.append("key", "second");
    let old = m.insert("key", "replaced");
    assert_eq!(old.unwrap().len(), 2);
    assert_eq!(m.get_all("key").len(), 1);
}

#[test]
fn iter_flat_counts_all_values() {
    let mut m = MetadataMap::new();
    m.append("a", "1");
    m.append("a", "2");
    m.append("b", "3");
    let flat: Vec<_> = m.iter_flat().into_iter().collect();
    assert_eq!(flat.len(), 3);
}

#[test]
fn keys_come_out_in_ascending_order() {
    let mut m = MetadataMap::new();
    m.insert("zeta", "1");
    m.insert("Alpha", "2");
    m.insert("mid", "3");
    m.insert("alphabet", "4");
    assert_eq!(m.keys(), vec!["alpha", "alphabet", "mid", "zeta"]);
    let pairs: Vec<(String, Vec<String>)> = m.iter();
    assert_eq!(pairs[0], ("alpha".to_string(), vec!["2".to_string()]));
    assert_eq!(pairs[3], ("zeta".to_string(), vec!["1".to_string()]));
}

#[test]
fn iter_flat_orders_keys_then_values() {
    let mut m = MetadataMap::new();
    m.append("b", "3");
    m.append("a", "1");
    m.append("A", "2");
    let flat = m.iter_flat();
    assert_eq!(
        flat,
        vec![
            ("a".to_string(), "1".to_string()),
            ("a".to_string(), "2".to_string()),
            ("b".to_string(), "3".to_string()),
        ]
    );
}

#[test]
fn insert_returns_previous_values() {
    let mut m = MetadataMap::new();
    assert_eq!(m.insert("k", "v1"), None);
    assert_eq!(m.insert("K", "v2"), Some(vec!["v1".to_string()]));
    assert_eq!(m.get_all("k"), &["v2".to_string()]);
}

#[test]
fn remove_drops_every_value() {
    let mut m = MetadataMap::new();
    m.append("x", "1");
    m.append("x", "2");
    m.append("y", "3");
    assert_eq!(m.remove("X"), Some(vec!["1".to_string(), "2".to_string()]));
    assert_eq!(m.get_first("x"), None);
    assert!(m.get_all("x").is_empty());
    assert_eq!(m.remove("x"), None);
    assert_eq!(m.len(), 1);
}

#[test]
fn clear_and_is_empty() {
    let mut m = MetadataMap::new();
    assert!(m.is_empty());
    m.insert("a", "1");
    assert!(!m.is_empty());
    m.clear();
    assert!(m.is_empty());
    assert_eq!(m.len(), 0);
}

#[test]
fn non_ascii_keys_keep_their_letters() {
    let mut m = MetadataMap::new();
    m.insert("ÄB", "1");
    assert_eq!(m.keys(), vec!["Äb"]);
    assert_eq!(m.get_first("Äb"), Some("1"));
    assert_eq!(m.get_first("äb"), None);
}

#[test]
fn clone_and_default() {
    let mut m = MetadataMap::new();
    m.append("b", "1");
    m.append("a", "2");
    let c = m.clone();
    assert_eq!(c.iter(), m.iter());
    let d = MetadataMap::default();
    assert!(d.is_empty());
}
