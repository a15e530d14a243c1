//! The four finders: each walks two root objects and keeps the differences
//! of one kind.

use vstd::prelude::*;
use crate::compare_field::compare_objects;
use crate::diff_spec::object_diffs;
use crate::diff_types::{ArrayDiff, KeyDiff, TypeDiff, ValueDiff, WorkingContext};
use crate::value::Value;

verus! {

/// Finds the keys that one document has and the other misses.
pub fn find_key_diffs(
    key_in: &str,
    a: &Vec<(String, Value)>,
    b: &Vec<(String, Value)>,
    working_context: &WorkingContext,
) -> (diffs: Vec<KeyDiff>)
    ensures
        diffs.deep_view() == object_diffs(
            key_in@,
            a.deep_view(),
            b.deep_view(),
            working_context@,
        ).keys,
{
    compare_objects(key_in, a, b, working_context).0
}

/// Finds the fields whose values are of different kinds.
pub fn find_type_diffs(
    key_in: &str,
    a: &Vec<(String, Value)>,
    b: &Vec<(String, Value)>,
    working_context: &WorkingContext,
) -> (diffs: Vec<TypeDiff>)
    ensures
        diffs.deep_view() == object_diffs(
            key_in@,
            a.deep_view(),
            b.deep_view(),
            working_context@,
        ).types,
{
    compare_objects(key_in, a, b, working_context).1
}

/// Finds the fields whose values differ.
pub fn find_value_diffs(
    key_in: &str,
    a: &Vec<(String, Value)>,
    b: &Vec<(String, Value)>,
    working_context: &WorkingContext,
) -> (diffs: Vec<ValueDiff>)
    ensures
        diffs.deep_view() == object_diffs(
            key_in@,
            a.deep_view(),
            b.deep_view(),
            working_context@,
        ).values,
{
    compare_objects(key_in, a, b, working_context).2
}

/// Finds the array elements that one document has and the other misses.
pub fn find_array_diffs(
    key_in: &str,
    a: &Vec<(String, Value)>,
    b: &Vec<(String, Value)>,
    working_context: &WorkingContext,
) -> (diffs: Vec<ArrayDiff>)
    ensures
        diffs.deep_view() == object_diffs(
            key_in@,
            a.deep_view(),
            b.deep_view(),
            working_context@,
        ).arrays,
{
    compare_objects(key_in, a, b, working_context).3
}

} // verus!
