use libdtf::compare_field::compare_field;
use libdtf::diff_types::{
    ArrayDiff, ArrayDiffDesc, Config, KeyDiff, TypeDiff, ValueDiff, WorkingContext, WorkingFile,
};
use libdtf::finders::{find_array_diffs, find_key_diffs, find_type_diffs, find_value_diffs};
use libdtf::value::Value;

fn context(array_same_order: bool) -> WorkingContext {
    WorkingContext::new(
        WorkingFile::new("a.json".to_string()),
        WorkingFile::new("b.json".to_string()),
        Config::new(array_same_order),
    )
}

fn number(text: &str) -> Value {
    Value::Number(text.to_string())
}

fn string(text: &str) -> Value {
    Value::String(text.to_string())
}

fn object(entries: Vec<(&str, Value)>) -> Vec<(String, Value)> {
    entries.into_iter().map(|(key, value)| (key.to_string(), value)).collect()
}

#[test]
fn keys_of_one_side_only_are_key_diffs() {
    let a = object(vec![("x", number("1")), ("y", number("2"))]);
    let b = object(vec![("x", number("1")), ("z", number("3"))]);
    let context = context(false);
    let keys = find_key_diffs("", &a, &b, &context);
    assert_eq!(
        keys,
        vec![
            KeyDiff::new("y".to_string(), "a.json".to_string(), "b.json".to_string()),
            KeyDiff::new("z".to_string(), "b.json".to_string(), "a.json".to_string()),
        ]
    );
    assert_eq!(find_type_diffs("", &a, &b, &context), vec![]);
    assert_eq!(find_value_diffs("", &a, &b, &context), vec![]);
    assert_eq!(find_array_diffs("", &a, &b, &context), vec![]);
}

#[test]
fn string_against_number_is_a_type_diff() {
    let a = object(vec![("v", string("1"))]);
    let b = object(vec![("v", number("1"))]);
    let context = context(false);
    assert_eq!(
        find_type_diffs("", &a, &b, &context),
        vec![TypeDiff::new("v".to_string(), "string".to_string(), "number".to_string())]
    );
    assert_eq!(find_value_diffs("", &a, &b, &context), vec![]);
}

#[test]
fn different_numbers_are_a_value_diff() {
    let a = object(vec![("v", number("1"))]);
    let b = object(vec![("v", number("2"))]);
    let context = context(false);
    assert_eq!(
        find_value_diffs("", &a, &b, &context),
        vec![ValueDiff::new("v".to_string(), "1".to_string(), "2".to_string())]
    );
}

#[test]
fn unordered_arrays_report_elements_of_one_side_only() {
    let a = object(vec![("arr", Value::Array(vec![number("1"), number("2"), number("3")]))]);
    let b = object(vec![("arr", Value::Array(vec![number("2"), number("3"), number("4")]))]);
    let context = context(false);
    assert_eq!(
        find_array_diffs("", &a, &b, &context),
        vec![
            ArrayDiff::new("arr".to_string(), ArrayDiffDesc::AHas, "1".to_string()),
            ArrayDiff::new("arr".to_string(), ArrayDiffDesc::BMisses, "1".to_string()),
            ArrayDiff::new("arr".to_string(), ArrayDiffDesc::BHas, "4".to_string()),
            ArrayDiff::new("arr".to_string(), ArrayDiffDesc::AMisses, "4".to_string()),
        ]
    );
    assert_eq!(find_value_diffs("", &a, &b, &context), vec![]);
}

#[test]
fn order_matters_only_in_order_mode() {
    let a = Value::Array(vec![string("a"), string("b")]);
    let b = Value::Array(vec![string("b"), string("a")]);
    let ordered = compare_field("", &a, &b, &context(true));
    assert_eq!(
        ordered.2,
        vec![
            ValueDiff::new("[0]".to_string(), "\"a\"".to_string(), "\"b\"".to_string()),
            ValueDiff::new("[1]".to_string(), "\"b\"".to_string(), "\"a\"".to_string()),
        ]
    );
    assert!(ordered.0.is_empty() && ordered.1.is_empty() && ordered.3.is_empty());
    let unordered = compare_field("", &a, &b, &context(false));
    assert!(unordered.0.is_empty());
    assert!(unordered.1.is_empty());
    assert!(unordered.2.is_empty());
    assert!(unordered.3.is_empty());
}

fn nested_document() -> Vec<(String, Value)> {
    object(vec![
        ("name", string("dtf")),
        ("count", number("3")),
        ("ok", Value::Bool(true)),
        ("none", Value::Null),
        ("tags", Value::Array(vec![string("a"), string("b"), string("a")])),
        (
            "inner",
            Value::Object(object(vec![
                ("list", Value::Array(vec![number("1"), Value::Object(object(vec![("k", number("1.5"))]))])),
                ("empty", Value::Object(vec![])),
            ])),
        ),
    ])
}

#[test]
fn a_document_does_not_differ_from_its_copy() {
    for ordered in [false, true] {
        let context = context(ordered);
        let a = nested_document();
        let b = nested_document();
        assert_eq!(find_key_diffs("", &a, &b, &context), vec![]);
        assert_eq!(find_type_diffs("", &a, &b, &context), vec![]);
        assert_eq!(find_value_diffs("", &a, &b, &context), vec![]);
        assert_eq!(find_array_diffs("", &a, &b, &context), vec![]);
    }
}

#[test]
fn exchanged_documents_give_exchanged_key_diffs() {
    let a = object(vec![
        ("both", Value::Object(object(vec![("left", number("1")), ("same", number("1"))]))),
        ("only_a", number("1")),
    ]);
    let b = object(vec![
        ("only_b", Value::Null),
        ("both", Value::Object(object(vec![("same", number("1")), ("right", number("2"))]))),
    ]);
    let context = context(true);
    let forth = find_key_diffs("", &a, &b, &context);
    let back = find_key_diffs("", &b, &a, &context);
    assert_eq!(
        forth,
        vec![
            KeyDiff::new("both.left".to_string(), "a.json".to_string(), "b.json".to_string()),
            KeyDiff::new("both.right".to_string(), "b.json".to_string(), "a.json".to_string()),
            KeyDiff::new("only_a".to_string(), "a.json".to_string(), "b.json".to_string()),
            KeyDiff::new("only_b".to_string(), "b.json".to_string(), "a.json".to_string()),
        ]
    );
    assert_eq!(forth.len(), back.len());
    for diff in &forth {
        let flipped = KeyDiff::new(diff.key.clone(), diff.misses.clone(), diff.has.clone());
        assert!(back.contains(&flipped));
    }
}

#[test]
fn array_diffs_come_in_pairs() {
    let a = object(vec![("arr", Value::Array(vec![number("1"), number("1"), string("x"), Value::Null]))]);
    let b = object(vec![("arr", Value::Array(vec![number("1"), Value::Bool(false)]))]);
    let diffs = find_array_diffs("", &a, &b, &context(false));
    assert_eq!(diffs.len(), 8);
    for diff in &diffs {
        let partner = match diff.descriptor {
            ArrayDiffDesc::AHas => ArrayDiffDesc::BMisses,
            ArrayDiffDesc::BMisses => ArrayDiffDesc::AHas,
            ArrayDiffDesc::BHas => ArrayDiffDesc::AMisses,
            ArrayDiffDesc::AMisses => ArrayDiffDesc::BHas,
        };
        assert!(diffs.contains(&ArrayDiff::new(diff.key.clone(), partner, diff.value.clone())));
    }
}

#[test]
fn an_element_counts_as_often_as_it_occurs() {
    let a = Value::Array(vec![number("1"), number("1"), number("2")]);
    let b = Value::Array(vec![number("2"), number("1")]);
    let forth = compare_field("n", &a, &b, &context(false));
    assert_eq!(
        forth.3,
        vec![
            ArrayDiff::new("n".to_string(), ArrayDiffDesc::AHas, "1".to_string()),
            ArrayDiff::new("n".to_string(), ArrayDiffDesc::BMisses, "1".to_string()),
        ]
    );
    let back = compare_field("n", &b, &a, &context(false));
    assert_eq!(
        back.3,
        vec![
            ArrayDiff::new("n".to_string(), ArrayDiffDesc::BHas, "1".to_string()),
            ArrayDiff::new("n".to_string(), ArrayDiffDesc::AMisses, "1".to_string()),
        ]
    );
}

fn one_of_each_kind() -> Vec<(Value, &'static str)> {
    vec![
        (Value::Bool(true), "bool"),
        (number("1"), "number"),
        (string("s"), "string"),
        (Value::Array(vec![number("1")]), "array"),
        (Value::Object(object(vec![("k", number("1"))])), "object"),
    ]
}

#[test]
fn every_pair_of_different_kinds_is_one_type_diff() {
    for ordered in [false, true] {
        for (a, name_a) in one_of_each_kind() {
            for (b, name_b) in one_of_each_kind() {
                if name_a == name_b {
                    continue;
                }
                let result = compare_field("field", &a, &b, &context(ordered));
                assert_eq!(
                    result.1,
                    vec![TypeDiff::new("field".to_string(), name_a.to_string(), name_b.to_string())]
                );
                assert!(result.0.is_empty());
                assert!(result.2.is_empty());
                assert!(result.3.is_empty());
            }
        }
    }
}

#[test]
fn two_nulls_do_not_differ() {
    let result = compare_field("n", &Value::Null, &Value::Null, &context(false));
    assert!(result.0.is_empty() && result.1.is_empty() && result.2.is_empty() && result.3.is_empty());
}

#[test]
fn null_against_a_primitive_is_a_value_diff() {
    let context = context(false);
    let left = compare_field("p", &Value::Null, &string("x"), &context);
    assert_eq!(left.2, vec![ValueDiff::new("p".to_string(), "null".to_string(), "\"x\"".to_string())]);
    assert!(left.0.is_empty() && left.1.is_empty() && left.3.is_empty());
    let right = compare_field("p", &Value::Bool(false), &Value::Null, &context);
    assert_eq!(right.2, vec![ValueDiff::new("p".to_string(), "false".to_string(), "null".to_string())]);
    let num = compare_field("p", &Value::Null, &number("-2.5e3"), &context);
    assert_eq!(num.2, vec![ValueDiff::new("p".to_string(), "null".to_string(), "-2.5e3".to_string())]);
}

#[test]
fn null_against_an_array_gives_up_every_element() {
    for ordered in [false, true] {
        let context = context(ordered);
        let items = Value::Array(vec![number("1"), number("1")]);
        let left = compare_field("l", &Value::Null, &items, &context);
        assert_eq!(
            left.3,
            vec![
                ArrayDiff::new("l".to_string(), ArrayDiffDesc::BHas, "1".to_string()),
                ArrayDiff::new("l".to_string(), ArrayDiffDesc::AMisses, "1".to_string()),
                ArrayDiff::new("l".to_string(), ArrayDiffDesc::BHas, "1".to_string()),
                ArrayDiff::new("l".to_string(), ArrayDiffDesc::AMisses, "1".to_string()),
            ]
        );
        assert!(left.0.is_empty() && left.1.is_empty() && left.2.is_empty());
        let right = compare_field("l", &items, &Value::Null, &context);
        assert_eq!(
            right.3,
            vec![
                ArrayDiff::new("l".to_string(), ArrayDiffDesc::AHas, "1".to_string()),
                ArrayDiff::new("l".to_string(), ArrayDiffDesc::BMisses, "1".to_string()),
                ArrayDiff::new("l".to_string(), ArrayDiffDesc::AHas, "1".to_string()),
                ArrayDiff::new("l".to_string(), ArrayDiffDesc::BMisses, "1".to_string()),
            ]
        );
    }
}

#[test]
fn null_against_an_object_gives_up_every_key() {
    let context = context(false);
    let entries = Value::Object(object(vec![
        ("x", number("1")),
        ("y", Value::Object(object(vec![("z", number("2"))]))),
    ]));
    let left = compare_field("o", &Value::Null, &entries, &context);
    assert_eq!(
        left.0,
        vec![
            KeyDiff::new("o.x".to_string(), "b.json".to_string(), "a.json".to_string()),
            KeyDiff::new("o.y".to_string(), "b.json".to_string(), "a.json".to_string()),
        ]
    );
    assert!(left.1.is_empty() && left.2.is_empty() && left.3.is_empty());
    let right = compare_field("", &entries, &Value::Null, &context);
    assert_eq!(
        right.0,
        vec![
            KeyDiff::new("x".to_string(), "a.json".to_string(), "b.json".to_string()),
            KeyDiff::new("y".to_string(), "a.json".to_string(), "b.json".to_string()),
        ]
    );
}

#[test]
fn ordered_arrays_of_different_length() {
    let context = context(true);
    let a = Value::Array(vec![number("1"), number("2"), Value::Null, Value::Array(vec![string("t")])]);
    let b = Value::Array(vec![number("1")]);
    let forth = compare_field("arr", &a, &b, &context);
    assert_eq!(
        forth.2,
        vec![ValueDiff::new("arr[1]".to_string(), "2".to_string(), "null".to_string())]
    );
    assert_eq!(
        forth.3,
        vec![
            ArrayDiff::new("arr[3]".to_string(), ArrayDiffDesc::AHas, "\"t\"".to_string()),
            ArrayDiff::new("arr[3]".to_string(), ArrayDiffDesc::BMisses, "\"t\"".to_string()),
        ]
    );
    assert!(forth.0.is_empty() && forth.1.is_empty());
    let back = compare_field("arr", &b, &a, &context);
    assert_eq!(
        back.2,
        vec![ValueDiff::new("arr[1]".to_string(), "null".to_string(), "2".to_string())]
    );
    assert_eq!(
        back.3,
        vec![
            ArrayDiff::new("arr[3]".to_string(), ArrayDiffDesc::BHas, "\"t\"".to_string()),
            ArrayDiff::new("arr[3]".to_string(), ArrayDiffDesc::AMisses, "\"t\"".to_string()),
        ]
    );
}

#[test]
fn paths_follow_keys_and_indices() {
    let a = object(vec![(
        "outer",
        Value::Object(object(vec![(
            "list",
            Value::Array(vec![
                number("0"), number("1"), number("2"), number("3"), number("4"), number("5"),
                number("6"), number("7"), number("8"), number("9"),
                Value::Object(object(vec![("deep", string("x"))])),
            ]),
        )])),
    )]);
    let b = object(vec![(
        "outer",
        Value::Object(object(vec![(
            "list",
            Value::Array(vec![
                number("0"), number("1"), number("2"), number("3"), number("4"), number("5"),
                number("6"), number("7"), number("8"), number("9"),
                Value::Object(object(vec![("deep", string("y")), ("more", Value::Null)])),
            ]),
        )])),
    )]);
    let context = context(true);
    assert_eq!(
        find_value_diffs("", &a, &b, &context),
        vec![ValueDiff::new("outer.list[10].deep".to_string(), "\"x\"".to_string(), "\"y\"".to_string())]
    );
    assert_eq!(
        find_key_diffs("", &a, &b, &context),
        vec![KeyDiff::new("outer.list[10].more".to_string(), "b.json".to_string(), "a.json".to_string())]
    );
    assert_eq!(
        find_value_diffs("root", &a, &b, &context)[0].key,
        "root.outer.list[10].deep".to_string()
    );
}

#[test]
fn numbers_are_equal_when_their_texts_are() {
    let context = context(false);
    let same = compare_field("n", &number("1.0"), &number("1.0"), &context);
    assert!(same.2.is_empty());
    let other = compare_field("n", &number("1"), &number("1.0"), &context);
    assert_eq!(other.2, vec![ValueDiff::new("n".to_string(), "1".to_string(), "1.0".to_string())]);
    let flags = compare_field("b", &Value::Bool(true), &Value::Bool(false), &context);
    assert_eq!(flags.2, vec![ValueDiff::new("b".to_string(), "true".to_string(), "false".to_string())]);
    let texts = compare_field("s", &string("a"), &string("a"), &context);
    assert!(texts.2.is_empty());
}

#[test]
fn a_lookup_finds_the_first_entry_of_a_key() {
    let a = object(vec![("k", number("1"))]);
    let b = object(vec![("k", number("1")), ("k", number("2"))]);
    let context = context(false);
    assert_eq!(find_value_diffs("", &a, &b, &context), vec![]);
    assert_eq!(
        find_value_diffs("", &b, &a, &context),
        vec![ValueDiff::new("k".to_string(), "2".to_string(), "1".to_string())]
    );
}
