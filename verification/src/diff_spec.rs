//! What a comparison yields, stated over the documents' models.

use vstd::prelude::*;
use crate::diff_types::{
    ArrayDiffDesc, ArrayDiffView, ContextView, Diffs, KeyDiffView, TypeDiffView, ValueDiffView,
};
use crate::path::{child_path, index_path};
use crate::serialize::{canonical, canonical_each};
use crate::value::Json;

verus! {

/// How often `text` occurs among `texts`.
pub open spec fn count(texts: Seq<Seq<char>>, text: Seq<char>) -> nat
    decreases texts.len(),
{
    if texts.len() == 0 {
        0
    } else {
        count(texts.drop_last(), text) + if texts.last() == text {
            1nat
        } else {
            0nat
        }
    }
}

/// The texts of `a` that `b` does not make up for, in the order of `a`. Texts
/// count with multiplicity: where `b` holds a text `m` times, the first `m`
/// occurrences of it in `a` are matched and every later one stays.
pub open spec fn surplus(a: Seq<Seq<char>>, b: Seq<Seq<char>>) -> Seq<Seq<char>>
    decreases a.len(),
{
    if a.len() == 0 {
        Seq::empty()
    } else {
        let before = surplus(a.drop_last(), b);
        if count(a.drop_last(), a.last()) >= count(b, a.last()) {
            before.push(a.last())
        } else {
            before
        }
    }
}

/// For each text two records under `key`, first one with the descriptor `has`
/// and then one with the descriptor `misses`.
pub open spec fn paired(
    key: Seq<char>,
    texts: Seq<Seq<char>>,
    has: ArrayDiffDesc,
    misses: ArrayDiffDesc,
) -> Seq<ArrayDiffView> {
    Seq::new(
        2 * texts.len(),
        |i: int|
            ArrayDiffView {
                key,
                descriptor: if i % 2 == 0 {
                    has
                } else {
                    misses
                },
                value: texts[i / 2],
            },
    )
}

/// The array differences of two arrays compared without regard to position:
/// the surplus of `a` as held by A and missed by B, then the surplus of `b`
/// as held by B and missed by A. Elements are compared by canonical text.
pub open spec fn unordered_diffs(key: Seq<char>, a: Seq<Json>, b: Seq<Json>) -> Seq<
    ArrayDiffView,
> {
    let in_a = canonical_each(a);
    let in_b = canonical_each(b);
    paired(key, surplus(in_a, in_b), ArrayDiffDesc::AHas, ArrayDiffDesc::BMisses) + paired(
        key,
        surplus(in_b, in_a),
        ArrayDiffDesc::BHas,
        ArrayDiffDesc::AMisses,
    )
}

/// One key difference for each entry, in their order.
pub open spec fn absent_keys(
    key: Seq<char>,
    entries: Seq<(Seq<char>, Json)>,
    has: Seq<char>,
    misses: Seq<char>,
) -> Seq<KeyDiffView> {
    Seq::new(
        entries.len(),
        |i: int| KeyDiffView { key: child_path(key, entries[i].0), has, misses },
    )
}

/// The items of an array; of any other value, none.
pub open spec fn items_of(value: Json) -> Seq<Json> {
    match value {
        Json::Array(items) => items,
        _ => Seq::empty(),
    }
}

/// The entries of an object; of any other value, none.
pub open spec fn entries_of(value: Json) -> Seq<(Seq<char>, Json)> {
    match value {
        Json::Object(entries) => entries,
        _ => Seq::empty(),
    }
}

/// The one value difference that holds both canonical texts. Where one side
/// is null, its text is `null`.
pub open spec fn text_diffs(key: Seq<char>, a: Json, b: Json) -> Seq<ValueDiffView> {
    seq![ValueDiffView { key, value1: canonical(a), value2: canonical(b) }]
}

/// The array differences of a null against an array: the null side counts as
/// an empty array, so every element of the other side is one that only it has.
pub open spec fn null_array_diffs(key: Seq<char>, a: Json, b: Json) -> Seq<ArrayDiffView> {
    unordered_diffs(key, items_of(a), items_of(b))
}

/// The key differences of a null against an object: the null side counts as
/// an empty object, so every key of the other side is one that only it has.
pub open spec fn null_object_diffs(key: Seq<char>, a: Json, b: Json, context: ContextView) -> Seq<
    KeyDiffView,
> {
    absent_keys(key, entries_of(a), context.file_a, context.file_b) + absent_keys(
        key,
        entries_of(b),
        context.file_b,
        context.file_a,
    )
}

/// The differences of two values of which one is null, by the kind of the
/// other: a primitive gives a value difference, an array array differences,
/// an object key differences, and a second null nothing.
pub open spec fn null_pair_diffs(key: Seq<char>, a: Json, b: Json, context: ContextView) -> Diffs {
    let other = if a is Null {
        b
    } else {
        a
    };
    match other {
        Json::Null => Diffs::empty(),
        Json::Array(_) => Diffs {
            keys: Seq::empty(),
            types: Seq::empty(),
            values: Seq::empty(),
            arrays: null_array_diffs(key, a, b),
        },
        Json::Object(_) => Diffs {
            keys: null_object_diffs(key, a, b, context),
            types: Seq::empty(),
            values: Seq::empty(),
            arrays: Seq::empty(),
        },
        _ => Diffs {
            keys: Seq::empty(),
            types: Seq::empty(),
            values: text_diffs(key, a, b),
            arrays: Seq::empty(),
        },
    }
}

/// The differences of a value that has no counterpart on the other side: it
/// is compared with null. `on_a` says which side holds the value.
pub open spec fn one_sided(key: Seq<char>, value: Json, on_a: bool, context: ContextView) -> Diffs {
    if on_a {
        null_pair_diffs(key, value, Json::Null, context)
    } else {
        null_pair_diffs(key, Json::Null, value, context)
    }
}

/// The differences of two primitives of one kind: none where they are equal,
/// else one value difference that holds both canonical texts.
pub open spec fn primitive_diffs(key: Seq<char>, a: Json, b: Json) -> Seq<ValueDiffView> {
    if a == b {
        Seq::empty()
    } else {
        seq![ValueDiffView { key, value1: canonical(a), value2: canonical(b) }]
    }
}

/// The one type difference of two values of different kinds.
pub open spec fn type_diffs(key: Seq<char>, a: Json, b: Json) -> Seq<TypeDiffView> {
    seq![TypeDiffView { key, type1: a.kind().name(), type2: b.kind().name() }]
}

/// The index of the first entry at or after `from` that has the key, or the
/// number of entries where there is none.
pub open spec fn find_from(entries: Seq<(Seq<char>, Json)>, key: Seq<char>, from: int) -> int
    decreases entries.len() - from,
{
    if from < 0 || from >= entries.len() {
        entries.len() as int
    } else if entries[from].0 == key {
        from
    } else {
        find_from(entries, key, from + 1)
    }
}

/// The index of the first entry that has the key, or the number of entries
/// where none has it.
pub open spec fn position(entries: Seq<(Seq<char>, Json)>, key: Seq<char>) -> int {
    find_from(entries, key, 0)
}

/// The differences of one field: `a` and `b` are what the two sides hold at
/// the path `key`.
///
/// Where a side is null the two are a null pair. Two values of different
/// kinds give one type difference and are not looked into.
/// Two arrays, two objects and two primitives of one kind are compared as
/// their kind asks.
pub open spec fn field_diffs(key: Seq<char>, a: Json, b: Json, context: ContextView) -> Diffs
    decreases a, 0nat,
{
    if a is Null || b is Null {
        null_pair_diffs(key, a, b, context)
    } else if a.kind() != b.kind() {
        Diffs {
            keys: Seq::empty(),
            types: type_diffs(key, a, b),
            values: Seq::empty(),
            arrays: Seq::empty(),
        }
    } else {
        match a {
            Json::Array(items) => array_diffs(key, items, b->Array_0, context),
            Json::Object(entries) => object_diffs(key, entries, b->Object_0, context),
            _ => Diffs {
                keys: Seq::empty(),
                types: Seq::empty(),
                values: primitive_diffs(key, a, b),
                arrays: Seq::empty(),
            },
        }
    }
}

/// The differences of two arrays. In order mode they are compared index by
/// index, up to the longer one's end; otherwise as collections of elements.
pub open spec fn array_diffs(key: Seq<char>, a: Seq<Json>, b: Seq<Json>, context: ContextView) -> Diffs
    decreases a, a.len() + b.len() + 1,
{
    if context.array_same_order {
        ordered_walk(
            key,
            a,
            b,
            if a.len() >= b.len() {
                a.len()
            } else {
                b.len()
            },
            context,
        )
    } else {
        Diffs {
            keys: Seq::empty(),
            types: Seq::empty(),
            values: Seq::empty(),
            arrays: unordered_diffs(key, a, b),
        }
    }
}

/// The differences at one index of two arrays compared in order. Where both
/// hold an element the two are compared as a field; an element without a
/// counterpart is one-sided.
pub open spec fn index_diffs(key: Seq<char>, a: Seq<Json>, b: Seq<Json>, i: int, context: ContextView) -> Diffs
    decreases a, 0nat,
{
    let path = index_path(key, i as nat);
    if 0 <= i < a.len() && i < b.len() {
        field_diffs(path, a[i], b[i], context)
    } else if 0 <= i < a.len() {
        one_sided(path, a[i], true, context)
    } else if 0 <= i < b.len() {
        one_sided(path, b[i], false, context)
    } else {
        Diffs::empty()
    }
}

/// The differences at the indices below `n`, in rising order.
pub open spec fn ordered_walk(
    key: Seq<char>,
    a: Seq<Json>,
    b: Seq<Json>,
    n: nat,
    context: ContextView,
) -> Diffs
    decreases a, n,
{
    if n == 0 {
        Diffs::empty()
    } else {
        ordered_walk(key, a, b, (n - 1) as nat, context).concat(
            index_diffs(key, a, b, n - 1, context),
        )
    }
}

/// The differences that the entry `i` of `a` gives against the object `b`:
/// those of the field where `b` has the key, else one key difference that A
/// holds the key and B misses it.
pub open spec fn entry_diffs(
    key: Seq<char>,
    a: Seq<(Seq<char>, Json)>,
    b: Seq<(Seq<char>, Json)>,
    i: int,
    context: ContextView,
) -> Diffs
    decreases a, 0nat,
{
    if 0 <= i < a.len() {
        let path = child_path(key, a[i].0);
        let at = position(b, a[i].0);
        if 0 <= at < b.len() {
            field_diffs(path, a[i].1, b[at].1, context)
        } else {
            Diffs {
                keys: seq![KeyDiffView { key: path, has: context.file_a, misses: context.file_b }],
                types: Seq::empty(),
                values: Seq::empty(),
                arrays: Seq::empty(),
            }
        }
    } else {
        Diffs::empty()
    }
}

/// The differences that the first `n` entries of `a` give, in their order.
pub open spec fn left_walk(
    key: Seq<char>,
    a: Seq<(Seq<char>, Json)>,
    b: Seq<(Seq<char>, Json)>,
    n: nat,
    context: ContextView,
) -> Diffs
    decreases a, n,
{
    if n == 0 {
        Diffs::empty()
    } else {
        left_walk(key, a, b, (n - 1) as nat, context).concat(
            entry_diffs(key, a, b, n - 1, context),
        )
    }
}

/// One key difference, held by B and missed by A, for each of the first `n`
/// entries of `b` whose key `a` does not have, in their order.
pub open spec fn right_walk(
    key: Seq<char>,
    a: Seq<(Seq<char>, Json)>,
    b: Seq<(Seq<char>, Json)>,
    n: nat,
    context: ContextView,
) -> Seq<KeyDiffView>
    decreases n,
{
    if n == 0 || n > b.len() {
        Seq::empty()
    } else {
        let before = right_walk(key, a, b, (n - 1) as nat, context);
        let entry = b[n - 1];
        if position(a, entry.0) < a.len() {
            before
        } else {
            before.push(
                KeyDiffView {
                    key: child_path(key, entry.0),
                    has: context.file_b,
                    misses: context.file_a,
                },
            )
        }
    }
}

/// The differences of two objects: first what the entries of `a` give, in
/// their order, then the keys that only `b` has, in the order of `b`.
pub open spec fn object_diffs(
    key: Seq<char>,
    a: Seq<(Seq<char>, Json)>,
    b: Seq<(Seq<char>, Json)>,
    context: ContextView,
) -> Diffs
    decreases a, a.len() + 1,
{
    let left = left_walk(key, a, b, a.len(), context);
    Diffs {
        keys: left.keys + right_walk(key, a, b, b.len(), context),
        types: left.types,
        values: left.values,
        arrays: left.arrays,
    }
}

} // verus!
