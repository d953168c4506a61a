use typesafe_llm_router::json::{copy_json, Json};
use typesafe_llm_router::keyed_map::KeyedMap;
use typesafe_llm_router::text::{
    contains_str, decimal_string, is_blank, join_strings, push_fixed, starts_with_text, str_less, trim_end_char,
    trim_text,
};

#[test]
fn keyed_map_keeps_keys_sorted_and_last_value() {
    let mut m = KeyedMap::new();
    m.insert("b".to_string(), 1u32);
    m.insert("a".to_string(), 2);
    m.insert("b".to_string(), 3);
    m.insert("10".to_string(), 4);
    m.insert("2".to_string(), 5);
    assert_eq!(m.keys(), vec!["10", "2", "a", "b"]);
    assert_eq!(m.get("b"), Some(&3));
    assert_eq!(m.len(), 4);
    assert!(m.contains_key("a"));
    assert!(!m.contains_key("c"));
    assert!(!m.is_empty());
    assert!(KeyedMap::<u32>::new().is_empty());
    let c = m.clone();
    assert_eq!(c.get("2"), Some(&5));
}

#[test]
fn string_order_is_lexicographic() {
    assert!(str_less("a", "b"));
    assert!(str_less("ab", "abc"));
    assert!(!str_less("abc", "ab"));
    assert!(!str_less("x", "x"));
    assert!(str_less("Z", "a"));
}

#[test]
fn decimal_and_fixed_rendering() {
    assert_eq!(decimal_string(0), "0");
    assert_eq!(decimal_string(1_234_567), "1234567");
    let mut s = String::new();
    push_fixed(&mut s, 2_500_000, 10_000, 2);
    assert_eq!(s, "2.50");
    let mut s = String::new();
    // Ties go to the even neighbour: 0.125 → 0.12, 0.135 → 0.14.
    push_fixed(&mut s, 125_000, 10_000, 2);
    s.push(' ');
    push_fixed(&mut s, 135_000, 10_000, 2);
    assert_eq!(s, "0.12 0.14");
}

#[test]
fn trimming_and_searching() {
    assert_eq!(trim_text("  a b \n"), "a b");
    assert_eq!(trim_text("\u{3000}x\u{a0}"), "x");
    assert_eq!(trim_end_char("a///", '/'), "a");
    assert!(is_blank(" \t"));
    assert!(!is_blank(" x "));
    assert!(starts_with_text("https://x", "https://"));
    assert!(!starts_with_text("http", "https://"));
    assert!(contains_str("hello billing team", "billing"));
    assert!(contains_str("abc", ""));
    assert!(!contains_str("ab", "abc"));
    assert_eq!(join_strings(&vec!["a".to_string(), "b".to_string()], ", "), "a, b");
}

#[test]
fn json_lookup_and_copy() {
    let doc = Json::Object(vec![
        ("k".to_string(), Json::Int(1)),
        ("k".to_string(), Json::Int(2)),
        ("arr".to_string(), Json::Array(vec![Json::Fixed(1_500_000), Json::Null])),
    ]);
    assert_eq!(doc.get("k"), Some(&Json::Int(1)));
    assert_eq!(doc.get("missing"), None);
    assert_eq!(doc.get("arr").and_then(|a| a.as_array()).map(|a| a.len()), Some(2));
    assert_eq!(Json::Int(-1).as_u64(), None);
    assert_eq!(Json::Int(7).as_u64(), Some(7));
    assert_eq!(copy_json(&doc), doc);
}
