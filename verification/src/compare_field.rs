//! The comparison engine: the field dispatcher, the comparators of objects,
//! arrays and primitives, and the handlers of null pairs and type mismatches.

use vstd::prelude::*;
use crate::diff_spec::{
    absent_keys, array_diffs, entry_diffs, field_diffs, find_from, index_diffs, left_walk,
    null_array_diffs, null_object_diffs, null_pair_diffs, object_diffs, ordered_walk, position,
    primitive_diffs, right_walk, text_diffs, type_diffs,
};
use crate::diff_types::{
    result_view, ArrayDiff, ComparisionResult, Diffs, KeyDiff, TypeDiff, ValueDiff, WorkingContext,
};
use crate::path::{child_key, index_key};
use crate::serialize::serialize;
use crate::unordered::unordered_array_diffs;
use crate::value::{lemma_array_view, lemma_object_view, Value};

verus! {

/// Appends `more` to `out`.
pub fn append_to<T: DeepView>(out: &mut Vec<T>, more: Vec<T>)
    ensures
        final(out).deep_view() == old(out).deep_view() + more.deep_view(),
{
    let mut more = more;
    let ghost added = more.deep_view();
    out.append(&mut more);
    assert(out.deep_view() =~= old(out).deep_view() + added);
}

/// Appends `item` to `out`.
pub fn push_to<T: DeepView>(out: &mut Vec<T>, item: T)
    ensures
        final(out).deep_view() == old(out).deep_view().push(item.deep_view()),
{
    out.push(item);
    assert(out.deep_view() =~= old(out).deep_view().push(item.deep_view()));
}

/// A result without differences.
pub fn no_diffs() -> (out: ComparisionResult)
    ensures
        result_view(out) == Diffs::empty(),
{
    let out: ComparisionResult = (Vec::new(), Vec::new(), Vec::new(), Vec::new());
    assert(out.0.deep_view() =~= Seq::empty());
    assert(out.1.deep_view() =~= Seq::empty());
    assert(out.2.deep_view() =~= Seq::empty());
    assert(out.3.deep_view() =~= Seq::empty());
    out
}

/// Finds the first entry that has the key. Returns its index, or the number
/// of entries where none has it.
pub fn find_entry(entries: &Vec<(String, Value)>, key: &String) -> (at: usize)
    ensures
        at == position(entries.deep_view(), key@),
        at <= entries.len(),
{
    let ghost all = entries.deep_view();
    let mut i: usize = 0;
    while i < entries.len()
        invariant
            i <= entries.len(),
            all == entries.deep_view(),
            position(all, key@) == find_from(all, key@, i as int),
        decreases entries.len() - i,
    {
        assert(all[i as int].0 == entries@[i as int].0@);
        if entries[i].0 == *key {
            return i;
        }
        i += 1;
    }
    i
}

/// Compares two primitives of one kind.
pub fn compare_primitives(key: &str, a: &Value, b: &Value) -> (out: Vec<ValueDiff>)
    requires
        a@.is_primitive(),
        a@.kind() == b@.kind(),
    ensures
        out.deep_view() == primitive_diffs(key@, a@, b@),
{
    let equal = match (a, b) {
        (Value::Bool(x), Value::Bool(y)) => *x == *y,
        (Value::Number(x), Value::Number(y)) => *x == *y,
        (Value::String(x), Value::String(y)) => *x == *y,
        _ => true,
    };
    let mut out: Vec<ValueDiff> = Vec::new();
    assert(out.deep_view() =~= Seq::empty());
    if !equal {
        push_to(&mut out, ValueDiff::new(key.to_owned(), serialize(a), serialize(b)));
        assert(out.deep_view() =~= primitive_diffs(key@, a@, b@));
    }
    out
}

/// Resolves a null against a primitive: one value difference that holds both
/// canonical texts, `null` on the null side.
pub fn handle_one_element_null_primitives(key: &str, a: &Value, b: &Value) -> (out: Vec<ValueDiff>)
    ensures
        out.deep_view() == text_diffs(key@, a@, b@),
{
    let mut out: Vec<ValueDiff> = Vec::new();
    assert(out.deep_view() =~= Seq::empty());
    push_to(&mut out, ValueDiff::new(key.to_owned(), serialize(a), serialize(b)));
    assert(out.deep_view() =~= text_diffs(key@, a@, b@));
    out
}

/// Resolves a null against an array: the null side counts as an empty array.
pub fn handle_one_element_null_arrays(key: &str, a: &Value, b: &Value) -> (out: Vec<ArrayDiff>)
    ensures
        out.deep_view() == null_array_diffs(key@, a@, b@),
{
    let none: Vec<Value> = Vec::new();
    assert(none.deep_view() =~= Seq::empty());
    let items_a = match a {
        Value::Array(items) => {
            proof {
                lemma_array_view(*items);
            }
            items
        },
        _ => &none,
    };
    let items_b = match b {
        Value::Array(items) => {
            proof {
                lemma_array_view(*items);
            }
            items
        },
        _ => &none,
    };
    unordered_array_diffs(key, items_a, items_b)
}

/// Appends one key difference for each entry.
pub fn push_absent_keys(
    out: &mut Vec<KeyDiff>,
    key: &str,
    entries: &Vec<(String, Value)>,
    has: &String,
    misses: &String,
)
    ensures
        final(out).deep_view() == old(out).deep_view() + absent_keys(
            key@,
            entries.deep_view(),
            has@,
            misses@,
        ),
{
    let ghost start = out.deep_view();
    let ghost all = entries.deep_view();
    let mut i: usize = 0;
    assert(out.deep_view() =~= start + absent_keys(key@, all.take(0), has@, misses@));
    while i < entries.len()
        invariant
            i <= entries.len(),
            all == entries.deep_view(),
            out.deep_view() == start + absent_keys(key@, all.take(i as int), has@, misses@),
        decreases entries.len() - i,
    {
        let ghost earlier = out.deep_view();
        let path = child_key(key, entries[i].0.as_str());
        push_to(out, KeyDiff::new(path, has.clone(), misses.clone()));
        proof {
            assert(all[i as int].0 == entries@[i as int].0@);
            assert(out.deep_view() =~= start + absent_keys(
                key@,
                all.take(i + 1),
                has@,
                misses@,
            ));
        }
        i += 1;
    }
    assert(all.take(entries.len() as int) =~= all);
}

/// Resolves a null against an object: the null side counts as an empty
/// object, so every key of the other side comes up as a key difference.
pub fn handle_one_element_null_objects(
    key: &str,
    a: &Value,
    b: &Value,
    working_context: &WorkingContext,
) -> (out: ComparisionResult)
    ensures
        result_view(out) == (Diffs {
            keys: null_object_diffs(key@, a@, b@, working_context@),
            types: Seq::empty(),
            values: Seq::empty(),
            arrays: Seq::empty(),
        }),
{
    let none: Vec<(String, Value)> = Vec::new();
    assert(none.deep_view() =~= Seq::empty());
    let entries_a = match a {
        Value::Object(entries) => {
            proof {
                lemma_object_view(*entries);
            }
            entries
        },
        _ => &none,
    };
    let entries_b = match b {
        Value::Object(entries) => {
            proof {
                lemma_object_view(*entries);
            }
            entries
        },
        _ => &none,
    };
    let (mut keys, types, values, arrays) = no_diffs();
    push_absent_keys(
        &mut keys,
        key,
        entries_a,
        &working_context.file_a.name,
        &working_context.file_b.name,
    );
    push_absent_keys(
        &mut keys,
        key,
        entries_b,
        &working_context.file_b.name,
        &working_context.file_a.name,
    );
    assert(keys.deep_view() =~= null_object_diffs(key@, a@, b@, working_context@));
    (keys, types, values, arrays)
}

/// Resolves two values of which at least one is null, by the kind of the
/// other one.
pub fn handle_one_element_null(
    key: &str,
    a: &Value,
    b: &Value,
    working_context: &WorkingContext,
) -> (out: ComparisionResult)
    requires
        a@ is Null || b@ is Null,
    ensures
        result_view(out) == null_pair_diffs(key@, a@, b@, working_context@),
{
    let other = match a {
        Value::Null => b,
        _ => a,
    };
    match other {
        Value::Null => no_diffs(),
        Value::Array(_) => {
            let (keys, types, values, _) = no_diffs();
            (keys, types, values, handle_one_element_null_arrays(key, a, b))
        },
        Value::Object(_) => handle_one_element_null_objects(key, a, b, working_context),
        _ => {
            let (keys, types, _, arrays) = no_diffs();
            (keys, types, handle_one_element_null_primitives(key, a, b), arrays)
        },
    }
}

/// Resolves two values of different kinds: one type difference that names
/// both kinds.
pub fn handle_different_types(key: &str, a: &Value, b: &Value) -> (out: Vec<TypeDiff>)
    ensures
        out.deep_view() == type_diffs(key@, a@, b@),
{
    let mut out: Vec<TypeDiff> = Vec::new();
    assert(out.deep_view() =~= Seq::empty());
    push_to(&mut out, TypeDiff::new(key.to_owned(), a.kind().to_string(), b.kind().to_string()));
    assert(out.deep_view() =~= type_diffs(key@, a@, b@));
    out
}

/// Compares two objects: first the entries of `a`, each against the entry of
/// `b` that has its key, then the keys that only `b` has.
pub fn compare_objects(
    key: &str,
    a: &Vec<(String, Value)>,
    b: &Vec<(String, Value)>,
    working_context: &WorkingContext,
) -> (out: ComparisionResult)
    ensures
        result_view(out) == object_diffs(key@, a.deep_view(), b.deep_view(), working_context@),
    decreases a,
{
    let ghost in_a = a.deep_view();
    let ghost in_b = b.deep_view();
    let (mut keys, mut types, mut values, mut arrays) = no_diffs();
    let mut i: usize = 0;
    while i < a.len()
        invariant
            i <= a.len(),
            in_a == a.deep_view(),
            in_b == b.deep_view(),
            result_view((keys, types, values, arrays)) == left_walk(
                key@,
                in_a,
                in_b,
                i as nat,
                working_context@,
            ),
        decreases a.len() - i,
    {
        let ghost before = result_view((keys, types, values, arrays));
        let path = child_key(key, a[i].0.as_str());
        let at = find_entry(b, &a[i].0);
        proof {
            assert(in_a[i as int] == (a@[i as int].0@, a@[i as int].1@));
        }
        if at < b.len() {
            proof {
                assert(in_b[at as int] == (b@[at as int].0@, b@[at as int].1@));
                assert(decreases_to!(a => a[i as int]));
                assert(decreases_to!(a[i as int] => a[i as int].1));
            }
            let more = compare_field(path.as_str(), &a[i].1, &b[at].1, working_context);
            append_to(&mut keys, more.0);
            append_to(&mut types, more.1);
            append_to(&mut values, more.2);
            append_to(&mut arrays, more.3);
        } else {
            push_to(
                &mut keys,
                KeyDiff::new(
                    path,
                    working_context.file_a.name.clone(),
                    working_context.file_b.name.clone(),
                ),
            );
        }
        proof {
            let here = entry_diffs(key@, in_a, in_b, i as int, working_context@);
            let now = result_view((keys, types, values, arrays));
            assert(now.keys =~= before.keys + here.keys);
            assert(now.types =~= before.types + here.types);
            assert(now.values =~= before.values + here.values);
            assert(now.arrays =~= before.arrays + here.arrays);
        }
        i += 1;
    }
    let ghost left = left_walk(key@, in_a, in_b, a.len() as nat, working_context@);
    let mut j: usize = 0;
    assert(keys.deep_view() =~= left.keys + right_walk(key@, in_a, in_b, 0, working_context@));
    while j < b.len()
        invariant
            j <= b.len(),
            in_a == a.deep_view(),
            in_b == b.deep_view(),
            keys.deep_view() == left.keys + right_walk(
                key@,
                in_a,
                in_b,
                j as nat,
                working_context@,
            ),
        decreases b.len() - j,
    {
        let ghost before = keys.deep_view();
        proof {
            assert(in_b[j as int] == (b@[j as int].0@, b@[j as int].1@));
        }
        if find_entry(a, &b[j].0) >= a.len() {
            let path = child_key(key, b[j].0.as_str());
            push_to(
                &mut keys,
                KeyDiff::new(
                    path,
                    working_context.file_b.name.clone(),
                    working_context.file_a.name.clone(),
                ),
            );
        }
        proof {
            assert(keys.deep_view() =~= left.keys + right_walk(
                key@,
                in_a,
                in_b,
                (j + 1) as nat,
                working_context@,
            ));
        }
        j += 1;
    }
    (keys, types, values, arrays)
}

/// Compares two arrays as the context asks: index by index, or as
/// collections of elements.
pub fn compare_arrays(
    key: &str,
    a: &Vec<Value>,
    b: &Vec<Value>,
    working_context: &WorkingContext,
) -> (out: ComparisionResult)
    ensures
        result_view(out) == array_diffs(key@, a.deep_view(), b.deep_view(), working_context@),
    decreases a,
{
    let ghost in_a = a.deep_view();
    let ghost in_b = b.deep_view();
    let (mut keys, mut types, mut values, mut arrays) = no_diffs();
    if !working_context.config.array_same_order {
        append_to(&mut arrays, unordered_array_diffs(key, a, b));
        assert(arrays.deep_view() =~= array_diffs(key@, in_a, in_b, working_context@).arrays);
        return (keys, types, values, arrays);
    }
    let end = if a.len() >= b.len() {
        a.len()
    } else {
        b.len()
    };
    let null = Value::Null;
    let mut i: usize = 0;
    while i < end
        invariant
            i <= end,
            a.len() <= end,
            b.len() <= end,
            end == a.len() || end == b.len(),
            null@ is Null,
            in_a == a.deep_view(),
            in_b == b.deep_view(),
            result_view((keys, types, values, arrays)) == ordered_walk(
                key@,
                in_a,
                in_b,
                i as nat,
                working_context@,
            ),
        decreases end - i,
    {
        let ghost before = result_view((keys, types, values, arrays));
        let path = index_key(key, i);
        proof {
            if i < a.len() {
                assert(in_a[i as int] == a@[i as int]@);
            }
            if i < b.len() {
                assert(in_b[i as int] == b@[i as int]@);
            }
        }
        let more = if i < a.len() && i < b.len() {
            proof {
                assert(decreases_to!(a => a[i as int]));
            }
            compare_field(path.as_str(), &a[i], &b[i], working_context)
        } else if i < a.len() {
            handle_one_element_null(path.as_str(), &a[i], &null, working_context)
        } else {
            handle_one_element_null(path.as_str(), &null, &b[i], working_context)
        };
        proof {
            assert(result_view(more) == index_diffs(key@, in_a, in_b, i as int, working_context@));
        }
        append_to(&mut keys, more.0);
        append_to(&mut types, more.1);
        append_to(&mut values, more.2);
        append_to(&mut arrays, more.3);
        proof {
            let here = index_diffs(key@, in_a, in_b, i as int, working_context@);
            let now = result_view((keys, types, values, arrays));
            assert(now.keys =~= before.keys + here.keys);
            assert(now.types =~= before.types + here.types);
            assert(now.values =~= before.values + here.values);
            assert(now.arrays =~= before.arrays + here.arrays);
        }
        i += 1;
    }
    (keys, types, values, arrays)
}

/// Compares what the two sides hold at the path `key`, and everything below
/// it. Every pair of kinds is routed: two nulls do not differ; primitives of
/// one kind go to the primitive comparator, arrays to the array comparator,
/// objects to the object comparator; a null against another kind goes to the
/// null handlers; any other pair is a type mismatch.
pub fn compare_field(
    key: &str,
    a_value: &Value,
    b_value: &Value,
    working_context: &WorkingContext,
) -> (out: ComparisionResult)
    ensures
        result_view(out) == field_diffs(key@, a_value@, b_value@, working_context@),
    decreases a_value,
{
    match (a_value, b_value) {
        (Value::Null, Value::Null) => no_diffs(),
        (Value::String(_), Value::String(_))
        | (Value::Number(_), Value::Number(_))
        | (Value::Bool(_), Value::Bool(_)) => {
            let (keys, types, _, arrays) = no_diffs();
            (keys, types, compare_primitives(key, a_value, b_value), arrays)
        },
        (Value::Array(a), Value::Array(b)) => {
            proof {
                lemma_array_view(*a);
                lemma_array_view(*b);
            }
            compare_arrays(key, a, b, working_context)
        },
        (Value::Object(a), Value::Object(b)) => {
            proof {
                lemma_object_view(*a);
                lemma_object_view(*b);
            }
            compare_objects(key, a, b, working_context)
        },
        (Value::Null, Value::String(_))
        | (Value::Null, Value::Number(_))
        | (Value::Null, Value::Bool(_))
        | (Value::String(_), Value::Null)
        | (Value::Number(_), Value::Null)
        | (Value::Bool(_), Value::Null) => {
            let (keys, types, _, arrays) = no_diffs();
            (keys, types, handle_one_element_null_primitives(key, a_value, b_value), arrays)
        },
        (Value::Null, Value::Array(_)) | (Value::Array(_), Value::Null) => {
            let (keys, types, values, _) = no_diffs();
            (keys, types, values, handle_one_element_null_arrays(key, a_value, b_value))
        },
        (Value::Null, Value::Object(_)) | (Value::Object(_), Value::Null) => {
            handle_one_element_null_objects(key, a_value, b_value, working_context)
        },
        (Value::String(_), Value::Number(_))
        | (Value::String(_), Value::Bool(_))
        | (Value::String(_), Value::Array(_))
        | (Value::String(_), Value::Object(_))
        | (Value::Number(_), Value::String(_))
        | (Value::Number(_), Value::Bool(_))
        | (Value::Number(_), Value::Array(_))
        | (Value::Number(_), Value::Object(_))
        | (Value::Bool(_), Value::String(_))
        | (Value::Bool(_), Value::Number(_))
        | (Value::Bool(_), Value::Array(_))
        | (Value::Bool(_), Value::Object(_))
        | (Value::Array(_), Value::String(_))
        | (Value::Array(_), Value::Number(_))
        | (Value::Array(_), Value::Bool(_))
        | (Value::Array(_), Value::Object(_))
        | (Value::Object(_), Value::String(_))
        | (Value::Object(_), Value::Number(_))
        | (Value::Object(_), Value::Bool(_))
        | (Value::Object(_), Value::Array(_)) => {
            let (keys, _, values, arrays) = no_diffs();
            (keys, handle_different_types(key, a_value, b_value), values, arrays)
        },
    }
}

} // verus!
