use nacos_cli::assoc::{find_key, get_text, get_value, put_pair};
use nacos_cli::text::{chars_of, ends_with, split_text, starts_with, str_eq, u64_text, i64_text};

#[test]
fn put_pair_replaces_in_place_and_appends_new_keys() {
    let mut m: Vec<(String, String)> = Vec::new();
    put_pair(&mut m, "host".to_string(), "a".to_string());
    put_pair(&mut m, "user".to_string(), "u".to_string());
    put_pair(&mut m, "host".to_string(), "b".to_string());
    assert_eq!(
        m,
        vec![("host".to_string(), "b".to_string()), ("user".to_string(), "u".to_string())]
    );
    assert_eq!(get_text(&m, "host"), Some(&"b".to_string()));
    assert_eq!(get_text(&m, "user"), Some(&"u".to_string()));
    assert_eq!(get_text(&m, "token"), None);
}

#[test]
fn find_key_gives_the_first_position() {
    let m = vec![("a".to_string(), 1), ("b".to_string(), 2), ("a".to_string(), 3)];
    assert_eq!(find_key(&m, "a"), Some(0));
    assert_eq!(find_key(&m, "b"), Some(1));
    assert_eq!(find_key(&m, "c"), None);
    assert_eq!(get_value(&m, "a"), Some(&1));
}

#[test]
fn text_helpers() {
    assert_eq!(chars_of("héllo"), vec!['h', 'é', 'l', 'l', 'o']);
    assert!(starts_with("http://x", "http://"));
    assert!(!starts_with("htt", "http://"));
    assert!(ends_with("a/nacos/", "nacos/"));
    assert!(!ends_with("nacos", "nacos/"));
    assert!(str_eq("a", "a"));
    assert!(!str_eq("a", "b"));
    assert_eq!(u64_text(0), "0");
    assert_eq!(u64_text(1234567890), "1234567890");
    assert_eq!(i64_text(-1), "-1");
    assert_eq!(i64_text(i64::MIN), "-9223372036854775808");
}

#[test]
fn split_text_splits_like_str_split() {
    assert_eq!(split_text("data", "\\."), vec!["data"]);
    assert_eq!(split_text("a\\.b\\.c", "\\."), vec!["a", "b", "c"]);
    assert_eq!(split_text("", "\\."), vec![""]);
    assert_eq!(split_text("\\.", "\\."), vec!["", ""]);
    assert_eq!(split_text("a.b", "\\."), vec!["a.b"]);
    assert_eq!(split_text("aaa", "aa"), vec!["", "a"]);
}
