use oats_framework::strmap::StringMap;
use oats_framework::text::{i64_to_string, join_strings, u64_to_string};

#[test]
fn test_decimal_rendering() {
    assert_eq!(u64_to_string(0), "0");
    assert_eq!(u64_to_string(7), "7");
    assert_eq!(u64_to_string(90), "90");
    assert_eq!(u64_to_string(10203), "10203");
    assert_eq!(i64_to_string(0), "0");
    assert_eq!(i64_to_string(-1), "-1");
    assert_eq!(i64_to_string(-123), "-123");
    assert_eq!(i64_to_string(i64::MIN), "-9223372036854775808");
    assert_eq!(i64_to_string(i64::MAX), "9223372036854775807");
}

#[test]
fn test_join_strings() {
    let none: Vec<String> = Vec::new();
    assert_eq!(join_strings(&none, ", "), "");
    let one = vec!["a".to_string()];
    assert_eq!(join_strings(&one, ", "), "a");
    let three = vec!["a".to_string(), "b".to_string(), "c".to_string()];
    assert_eq!(join_strings(&three, ", "), "a, b, c");
}

#[test]
fn test_string_map_basics() {
    let mut map: StringMap<u32> = StringMap::new();
    assert!(map.is_empty());
    assert!(!map.contains_key("k"));

    map.insert("k".to_string(), 1);
    map.insert("l".to_string(), 2);
    assert_eq!(map.len(), 2);
    assert_eq!(map.get("k"), Some(&1));

    map.insert("k".to_string(), 3);
    assert_eq!(map.len(), 2);
    assert_eq!(map.get("k"), Some(&3));

    let removed = map.remove("k");
    assert_eq!(removed, Some(3));
    assert_eq!(map.len(), 1);
    assert!(map.get("k").is_none());

    let keys = map.keys();
    assert_eq!(keys, vec!["l".to_string()]);

    map.clear();
    assert!(map.is_empty());
}

#[test]
fn test_string_map_keeps_insertion_order() {
    let mut map: StringMap<u32> = StringMap::new();
    map.insert("b".to_string(), 0);
    map.insert("a".to_string(), 1);
    map.insert("c".to_string(), 2);
    map.insert("a".to_string(), 9);
    assert_eq!(
        map.keys(),
        vec!["b".to_string(), "a".to_string(), "c".to_string()]
    );
    assert_eq!(map.get("a"), Some(&9));
}
