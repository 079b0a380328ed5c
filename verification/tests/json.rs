use sandboxed::json::{Json, JsonNumber};
use sandboxed::json_text::{json_from_value, json_to_value, parse_json, print_json};
use sandboxed::taskmap::TaskMap;
use sandboxed::text::{
    eq_ignoring_case, i64_text, join, parse_unsigned, split_words, trim,
    truncate_bytes, u64_text, utf16_units,
};
use sandboxed::textmap::TextMap;

#[test]
fn json_is_read_and_printed() {
    let text = r#"{"z": [1, -2, 0.5, true, null, "é\n"], "a": {}}"#;
    let j = parse_json(text).unwrap();
    assert_eq!(
        print_json(&j),
        "{\n  \"a\": {},\n  \"z\": [\n    1,\n    -2,\n    0.5,\n    true,\n    null,\n    \"é\\n\"\n  ]\n}"
    );
    assert!(parse_json("{").is_none());
    assert!(parse_json("").is_none());
    assert_eq!(parse_json("18446744073709551615").unwrap().as_u64(), Some(u64::MAX));
    assert_eq!(parse_json("-9223372036854775808").unwrap().as_i64(), Some(i64::MIN));
    assert_eq!(parse_json("1.0").unwrap().as_i64(), None);
}

#[test]
fn json_values_are_converted() {
    let mut map = serde_json::Map::new();
    map.insert("k".to_string(), serde_json::Value::from(vec![1, 2]));
    let value = serde_json::Value::Object(map);
    let j = json_from_value(value.clone());
    assert!(matches!(j.get("k"), Some(Json::Array(v)) if v.len() == 2));
    assert_eq!(json_to_value(&j), value);
    // Where a key occurs twice the first one is looked up.
    let twice = Json::Object(vec![
        ("k".to_string(), Json::Bool(true)),
        ("k".to_string(), Json::Bool(false)),
    ]);
    assert_eq!(twice.get("k").and_then(|v| v.as_bool()), Some(true));
    let decimal = Json::Number(JsonNumber::Decimal("0.2".to_string()));
    assert_eq!(print_json(&decimal), "0.2");
}

#[test]
fn text_maps_hold_one_value_under_each_text() {
    let mut m: TextMap<u8> = TextMap::new();
    m.insert("a".to_string(), 1);
    m.insert("b".to_string(), 2);
    m.insert("a".to_string(), 3);
    assert_eq!(m.get("a"), Some(&3));
    assert!(m.contains("b") && !m.contains("c"));
    assert_eq!(m.keys().len(), 2);
    assert_eq!(m.remove("a"), Some(3));
    assert_eq!(m.remove("a"), None);
    assert_eq!(m.get("b"), Some(&2));
}

#[test]
fn task_maps_tell_missions_apart() {
    let mut m: TaskMap<u8> = TaskMap::new();
    m.insert(1, "a".to_string(), 1);
    m.insert(2, "a".to_string(), 2);
    m.insert(1, "b".to_string(), 3);
    m.retain(&vec![(1, "a".to_string()), (2, "a".to_string()), (3, "c".to_string())]);
    assert_eq!(m.get(1, "a"), Some(&1));
    assert_eq!(m.get(2, "a"), Some(&2));
    assert_eq!(m.get(1, "b"), None);
    assert_eq!(m.keys().len(), 2);
    m.remove(1, "a");
    assert_eq!(m.get(1, "a"), None);
}

#[test]
fn texts_are_taken_apart() {
    assert_eq!(trim("\u{3000}\t a b \u{2003}\n"), "a b");
    assert_eq!(split_words(" a  b\u{a0}c "), ["a", "b", "c"]);
    assert_eq!(join(&vec!["a".to_string(), "b".to_string()], ", "), "a, b");
    assert_eq!(parse_unsigned("+7", 10), Some(7));
    assert_eq!(parse_unsigned("11", 10), None);
    assert_eq!(parse_unsigned("", 10), None);
    assert_eq!(u64_text(u64::MAX), "18446744073709551615");
    assert_eq!(i64_text(i64::MIN), "-9223372036854775808");
    assert!(eq_ignoring_case("Bot", "bOT") && !eq_ignoring_case("É", "é"));
    assert_eq!(truncate_bytes("aé", 2), "a");
    assert_eq!(utf16_units("𝄞a"), [0xd834, 0xdd1e, 0x61]);
}
