use rest_sync::address::{config_url, create_url, listing_url, normalize_url, object_url};
use rest_sync::category::Category;

#[test]
fn normalize_adds_a_missing_separator() {
    assert_eq!(normalize_url("http://host:8000/repo"), "http://host:8000/repo/");
}

#[test]
fn normalize_keeps_an_existing_separator() {
    assert_eq!(normalize_url("http://host:8000/repo/"), "http://host:8000/repo/");
}

#[test]
fn normalize_of_empty_text_is_a_separator() {
    assert_eq!(normalize_url(""), "/");
}

#[test]
fn normalize_of_a_separator_is_unchanged() {
    assert_eq!(normalize_url("/"), "/");
}

#[test]
fn normalize_adds_one_separator_only() {
    assert_eq!(normalize_url("http://host//"), "http://host//");
    assert_eq!(normalize_url("http://host/a b"), "http://host/a b/");
}

#[test]
fn normalize_twice_is_normalize_once() {
    for url in ["", "/", "a", "a/", "http://h/r", "http://h/r/", "h\u{e9}/", "h\u{e9}"] {
        let once = normalize_url(url);
        assert_eq!(normalize_url(&once), once);
        assert!(once.ends_with('/'));
    }
}

#[test]
fn normalize_looks_at_the_last_character_not_the_last_byte() {
    assert_eq!(normalize_url("http://host/d\u{e9}p\u{f4}t"), "http://host/d\u{e9}p\u{f4}t/");
    assert_eq!(normalize_url("http://host/\u{1f600}"), "http://host/\u{1f600}/");
}

#[test]
fn create_address_asks_for_creation() {
    assert_eq!(create_url("http://dst/"), "http://dst/?create=true");
}

#[test]
fn config_address_is_under_the_base() {
    assert_eq!(config_url("http://src/"), "http://src/config");
}

#[test]
fn listing_address_ends_with_a_separator() {
    assert_eq!(listing_url("http://src/", Category::Data), "http://src/data/");
    assert_eq!(listing_url("http://src/", Category::Keys), "http://src/keys/");
    assert_eq!(listing_url("http://src/", Category::Locks), "http://src/locks/");
    assert_eq!(listing_url("http://src/", Category::Snapshots), "http://src/snapshots/");
    assert_eq!(listing_url("http://src/", Category::Index), "http://src/index/");
}

#[test]
fn object_address_is_under_the_listing() {
    assert_eq!(object_url("http://dst/", Category::Index, "abc123"), "http://dst/index/abc123");
    assert_eq!(
        object_url("http://dst/", Category::Data, "abc123"),
        format!("{}{}", listing_url("http://dst/", Category::Data), "abc123")
    );
}
