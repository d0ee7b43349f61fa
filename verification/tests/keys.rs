use proto_service::keys::{compare_keys, normalize, normalize_owned, KeyOrder};

#[test]
fn normalize_lowers_ascii_only() {
    assert_eq!(normalize("Content-Type"), "content-type");
    assert_eq!(normalize("already-lower"), "already-lower");
    assert_eq!(normalize("ÀB"), "Àb");
    assert_eq!(normalize_owned("X-Custom".to_string()), "x-custom");
}

#[test]
fn compare_keys_is_lexicographic() {
    assert_eq!(compare_keys("a", "b"), KeyOrder::Less);
    assert_eq!(compare_keys("ab", "a"), KeyOrder::Greater);
    assert_eq!(compare_keys("a", "ab"), KeyOrder::Less);
    assert_eq!(compare_keys("same", "same"), KeyOrder::Equal);
    assert_eq!(compare_keys("", ""), KeyOrder::Equal);
    assert_eq!(compare_keys("Z", "a"), KeyOrder::Less);
}
