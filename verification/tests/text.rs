use libdtf::diff_types::ValueType;
use libdtf::path::{child_key, decimal, index_key};
use libdtf::serialize::{append_entry, append_item, serialize, serialize_each};
use libdtf::utils::{pretty_or_unchanged, sanitize_json_str};
use libdtf::value::{entries_nest_within, value_nests_within, Value, NESTING_LIMIT};

fn to_json(value: &Value) -> serde_json::Value {
    match value {
        Value::Null => serde_json::Value::Null,
        Value::Bool(b) => serde_json::Value::Bool(*b),
        Value::Number(n) => serde_json::from_str(n).unwrap(),
        Value::String(s) => serde_json::Value::String(s.clone()),
        Value::Array(items) => serde_json::Value::Array(items.iter().map(to_json).collect()),
        Value::Object(entries) => serde_json::Value::Object(
            entries.iter().map(|(key, value)| (key.clone(), to_json(value))).collect(),
        ),
    }
}

fn sample() -> Value {
    Value::Object(vec![
        ("a \"quoted\" key".to_string(), Value::String("line\nbreak\ttab \\ \u{1}".to_string())),
        ("b".to_string(), Value::Array(vec![])),
        (
            "c".to_string(),
            Value::Array(vec![
                Value::Null,
                Value::Bool(true),
                Value::Bool(false),
                Value::Number("12".to_string()),
                Value::Number("-0.5".to_string()),
                Value::Object(vec![]),
                Value::Array(vec![Value::String("\u{e9}\u{4e2d}".to_string())]),
            ]),
        ),
        ("d".to_string(), Value::Object(vec![("e".to_string(), Value::Number("1e+100".to_string()))])),
    ])
}

#[test]
fn the_canonical_text_is_compact_json() {
    assert_eq!(serialize(&Value::Null), "null");
    assert_eq!(serialize(&Value::Bool(true)), "true");
    assert_eq!(serialize(&Value::Bool(false)), "false");
    assert_eq!(serialize(&Value::Number("42".to_string())), "42");
    assert_eq!(serialize(&Value::String("a".to_string())), "\"a\"");
    assert_eq!(serialize(&Value::Array(vec![])), "[]");
    assert_eq!(serialize(&Value::Object(vec![])), "{}");
    assert_eq!(
        serialize(&Value::Array(vec![Value::Number("1".to_string()), Value::Null])),
        "[1,null]"
    );
    assert_eq!(
        serialize(&Value::Object(vec![
            ("x".to_string(), Value::Number("1".to_string())),
            ("y".to_string(), Value::Array(vec![Value::Bool(true)])),
        ])),
        "{\"x\":1,\"y\":[true]}"
    );
}

#[test]
fn strings_are_quoted_and_escaped() {
    assert_eq!(serialize(&Value::String("say \"hi\"\n".to_string())), "\"say \\\"hi\\\"\\n\"");
    assert_eq!(serialize(&Value::String(String::new())), "\"\"");
}

#[test]
fn the_canonical_text_is_what_serde_json_writes() {
    let value = sample();
    assert_eq!(serialize(&value), serde_json::to_string(&to_json(&value)).unwrap());
}

#[test]
fn each_item_gets_its_text() {
    let texts = serialize_each(&vec![Value::Null, Value::String("x".to_string())]);
    assert_eq!(texts, vec!["null".to_string(), "\"x\"".to_string()]);
    assert!(serialize_each(&vec![]).is_empty());
}

#[test]
fn numbers_are_written_in_decimal() {
    assert_eq!(decimal(0), "0");
    assert_eq!(decimal(7), "7");
    assert_eq!(decimal(10), "10");
    assert_eq!(decimal(1234567890), "1234567890");
    assert_eq!(decimal(usize::MAX), usize::MAX.to_string());
}

#[test]
fn a_child_of_the_root_has_its_key_as_path() {
    assert_eq!(child_key("", "key"), "key");
    assert_eq!(child_key("parent", "key"), "parent.key");
    assert_eq!(child_key("a.b", ""), "a.b.");
    assert_eq!(index_key("arr", 0), "arr[0]");
    assert_eq!(index_key("", 12), "[12]");
}

#[test]
fn kinds_have_their_names() {
    assert_eq!(ValueType::Null.to_string(), "null");
    assert_eq!(ValueType::Boolean.to_string(), "bool");
    assert_eq!(ValueType::Number.to_string(), "number");
    assert_eq!(ValueType::String.to_string(), "string");
    assert_eq!(ValueType::Array.to_string(), "array");
    assert_eq!(ValueType::Object.to_string(), "object");
    assert_eq!(Value::Null.kind(), ValueType::Null);
    assert_eq!(Value::Bool(true).kind(), ValueType::Boolean);
    assert_eq!(Value::Number("1".to_string()).kind(), ValueType::Number);
    assert_eq!(Value::String(String::new()).kind(), ValueType::String);
    assert_eq!(Value::Array(vec![]).kind(), ValueType::Array);
    assert_eq!(Value::Object(vec![]).kind(), ValueType::Object);
}

#[test]
fn json_is_laid_out_and_other_text_is_kept() {
    assert_eq!(sanitize_json_str("{\"a\":[1,2]}"), "{\n  \"a\": [\n    1,\n    2\n  ]\n}");
    assert_eq!(sanitize_json_str("\"text\""), "\"text\"");
    assert_eq!(sanitize_json_str("1"), "1");
    assert_eq!(sanitize_json_str("not json"), "not json");
    assert_eq!(sanitize_json_str("{\"open\":"), "{\"open\":");
    assert_eq!(sanitize_json_str(""), "");
}

fn nested(depth: usize) -> Value {
    let mut value = Value::Number("1".to_string());
    for level in 0..depth {
        value = if level % 2 == 0 {
            Value::Array(vec![Value::Null, value])
        } else {
            Value::Object(vec![("k".to_string(), value)])
        };
    }
    value
}

#[test]
fn the_depth_of_nesting_is_measured() {
    assert!(value_nests_within(&Value::Null, 0));
    assert!(value_nests_within(&Value::String("s".to_string()), 0));
    assert!(!value_nests_within(&Value::Array(vec![]), 0));
    assert!(value_nests_within(&Value::Array(vec![]), 1));
    assert!(!value_nests_within(&Value::Object(vec![]), 0));
    assert!(value_nests_within(&nested(3), 3));
    assert!(!value_nests_within(&nested(3), 2));
    assert!(value_nests_within(&nested(NESTING_LIMIT), NESTING_LIMIT));
    assert!(!value_nests_within(&nested(NESTING_LIMIT + 1), NESTING_LIMIT));
    assert!(entries_nest_within(&vec![("k".to_string(), nested(2))], 2));
    assert!(!entries_nest_within(&vec![("a".to_string(), Value::Null), ("k".to_string(), nested(2))], 1));
    assert!(entries_nest_within(&vec![], 0));
    assert_eq!(NESTING_LIMIT, 128);
}

#[test]
fn items_and_entries_are_joined_by_commas() {
    let mut text = "[".to_string();
    append_item(&mut text, true, "1");
    assert_eq!(text, "[1");
    append_item(&mut text, false, "null");
    assert_eq!(text, "[1,null");
    let mut entries = "{".to_string();
    append_entry(&mut entries, true, "\"a\"", "1");
    assert_eq!(entries, "{\"a\":1");
    append_entry(&mut entries, false, "\"b\"", "[]");
    assert_eq!(entries, "{\"a\":1,\"b\":[]");
}

#[test]
fn a_text_without_layout_is_kept() {
    assert_eq!(pretty_or_unchanged(Some("laid out".to_string()), "given"), "laid out");
    assert_eq!(pretty_or_unchanged(None, "given"), "given");
}
