//! What holds of every comparison.

use vstd::prelude::*;
use crate::diff_spec::{
    absent_keys, count, entry_diffs, field_diffs, find_from, index_diffs, items_of, left_walk,
    null_pair_diffs, object_diffs, one_sided, ordered_walk, paired, position, right_walk, surplus,
    unordered_diffs,
};
use crate::diff_types::{
    lemma_names_differ, ArrayDiffDesc, ArrayDiffView, ContextView, Diffs, KeyDiffView,
    TypeDiffView,
};
use crate::path::{child_path, index_path};
use crate::serialize::canonical_each;
use crate::value::{distinct_keys, lemma_well_formed_array, lemma_well_formed_object, Json};

verus! {

/// What `position` returns is the least index of an entry with the key.
pub proof fn lemma_find_from(entries: Seq<(Seq<char>, Json)>, key: Seq<char>, from: int)
    requires
        0 <= from <= entries.len(),
    ensures
        from <= find_from(entries, key, from) <= entries.len(),
        find_from(entries, key, from) < entries.len() ==> entries[find_from(
            entries,
            key,
            from,
        )].0 == key,
        forall|k: int| from <= k < find_from(entries, key, from) ==> (#[trigger] entries[k]).0 != key,
    decreases entries.len() - from,
{
    if from < entries.len() && entries[from].0 != key {
        lemma_find_from(entries, key, from + 1);
    }
}

/// Among distinct keys, the key of an entry is found at that entry.
pub proof fn lemma_position_own(entries: Seq<(Seq<char>, Json)>, i: int)
    requires
        distinct_keys(entries),
        0 <= i < entries.len(),
    ensures
        position(entries, entries[i].0) == i,
{
    lemma_find_from(entries, entries[i].0, 0);
    let p = position(entries, entries[i].0);
    if p > i {
        assert(entries[i].0 != entries[i].0);
    }
    if p < i {
        assert(entries[p].0 != entries[i].0);
    }
}

/// Two values of different kinds, neither of them null, give exactly one
/// type difference, which names both kinds, and nothing else. The two names
/// differ.
pub proof fn law_type_mismatch(key: Seq<char>, a: Json, b: Json, context: ContextView)
    requires
        !(a is Null),
        !(b is Null),
        a.kind() != b.kind(),
    ensures
        field_diffs(key, a, b, context) == (Diffs {
            keys: Seq::empty(),
            types: seq![TypeDiffView { key, type1: a.kind().name(), type2: b.kind().name() }],
            values: Seq::empty(),
            arrays: Seq::empty(),
        }),
        a.kind().name() != b.kind().name(),
{
    lemma_names_differ(a.kind(), b.kind());
}

/// A prefix holds a text no more often than the whole sequence, and once less
/// where the text stands right behind the prefix.
pub proof fn lemma_count_prefix(texts: Seq<Seq<char>>, n: int, text: Seq<char>)
    requires
        0 <= n <= texts.len(),
    ensures
        count(texts.take(n), text) <= count(texts, text),
        n < texts.len() && texts[n] == text ==> count(texts.take(n), text) < count(texts, text),
    decreases texts.len() - n,
{
    if n == texts.len() {
        assert(texts.take(n) =~= texts);
    } else {
        lemma_count_prefix(texts, n + 1, text);
        assert(texts.take(n + 1).drop_last() =~= texts.take(n));
    }
}

/// Against itself a sequence of texts has no surplus.
pub proof fn lemma_surplus_self(texts: Seq<Seq<char>>, n: int)
    requires
        0 <= n <= texts.len(),
    ensures
        surplus(texts.take(n), texts) == Seq::<Seq<char>>::empty(),
    decreases n,
{
    if n > 0 {
        lemma_surplus_self(texts, n - 1);
        assert(texts.take(n).drop_last() =~= texts.take(n - 1));
        lemma_count_prefix(texts, n - 1, texts[n - 1]);
    }
}

/// An array compared with itself as a collection gives no difference.
pub proof fn lemma_unordered_self(key: Seq<char>, items: Seq<Json>)
    ensures
        unordered_diffs(key, items, items) == Seq::<ArrayDiffView>::empty(),
{
    let texts = canonical_each(items);
    lemma_surplus_self(texts, texts.len() as int);
    assert(texts.take(texts.len() as int) =~= texts);
    assert(unordered_diffs(key, items, items) =~= Seq::<ArrayDiffView>::empty());
}

/// Identity: a well-formed document compared with an identical copy of itself
/// gives no difference of any kind, in either array mode.
pub proof fn law_identity(key: Seq<char>, document: Json, context: ContextView)
    requires
        document.well_formed(),
    ensures
        field_diffs(key, document, document, context) == Diffs::empty(),
    decreases document, 0nat,
{
    match document {
        Json::Array(items) => {
            if context.array_same_order {
                lemma_ordered_self(key, items, items.len(), context);
            } else {
                lemma_unordered_self(key, items);
            }
        },
        Json::Object(entries) => {
            lemma_well_formed_object(entries);
            lemma_left_self(key, entries, entries.len(), context);
            lemma_right_self(key, entries, entries.len(), context);
        },
        _ => {},
    }
}

/// Identity of two root objects: what the four finders return for a
/// well-formed object and an identical copy is empty.
pub proof fn law_identity_of_objects(
    key: Seq<char>,
    entries: Seq<(Seq<char>, Json)>,
    context: ContextView,
)
    requires
        Json::Object(entries).well_formed(),
    ensures
        object_diffs(key, entries, entries, context) == Diffs::empty(),
{
    law_identity(key, Json::Object(entries), context);
}

proof fn lemma_ordered_self(key: Seq<char>, items: Seq<Json>, n: nat, context: ContextView)
    requires
        Json::Array(items).well_formed(),
        n <= items.len(),
    ensures
        ordered_walk(key, items, items, n, context) == Diffs::empty(),
    decreases items, n,
{
    if n > 0 {
        lemma_ordered_self(key, items, (n - 1) as nat, context);
        lemma_well_formed_array(items);
        law_identity(index_path(key, (n - 1) as nat), items[n - 1], context);
        let here = index_diffs(key, items, items, n - 1, context);
        assert(here == Diffs::empty());
        assert(Diffs::empty().concat(here).keys =~= Seq::empty());
        assert(Diffs::empty().concat(here).types =~= Seq::empty());
        assert(Diffs::empty().concat(here).values =~= Seq::empty());
        assert(Diffs::empty().concat(here).arrays =~= Seq::empty());
    }
}

proof fn lemma_left_self(
    key: Seq<char>,
    entries: Seq<(Seq<char>, Json)>,
    n: nat,
    context: ContextView,
)
    requires
        Json::Object(entries).well_formed(),
        n <= entries.len(),
    ensures
        left_walk(key, entries, entries, n, context) == Diffs::empty(),
    decreases entries, n,
{
    if n > 0 {
        lemma_left_self(key, entries, (n - 1) as nat, context);
        lemma_position_own(entries, n - 1);
        lemma_well_formed_object(entries);
        law_identity(child_path(key, entries[n - 1].0), entries[n - 1].1, context);
        let here = entry_diffs(key, entries, entries, n - 1, context);
        assert(here == Diffs::empty());
        assert(Diffs::empty().concat(here).keys =~= Seq::empty());
        assert(Diffs::empty().concat(here).types =~= Seq::empty());
        assert(Diffs::empty().concat(here).values =~= Seq::empty());
        assert(Diffs::empty().concat(here).arrays =~= Seq::empty());
    }
}

proof fn lemma_right_self(
    key: Seq<char>,
    entries: Seq<(Seq<char>, Json)>,
    n: nat,
    context: ContextView,
)
    requires
        distinct_keys(entries),
        n <= entries.len(),
    ensures
        right_walk(key, entries, entries, n, context) == Seq::<KeyDiffView>::empty(),
    decreases n,
{
    if n > 0 {
        lemma_right_self(key, entries, (n - 1) as nat, context);
        lemma_position_own(entries, n - 1);
    }
}

/// The record that goes with an array difference: the same key and value,
/// said from the other side. What A has B misses, and what B has A misses.
pub open spec fn partner(diff: ArrayDiffView) -> ArrayDiffView {
    ArrayDiffView {
        key: diff.key,
        descriptor: match diff.descriptor {
            ArrayDiffDesc::AHas => ArrayDiffDesc::BMisses,
            ArrayDiffDesc::BMisses => ArrayDiffDesc::AHas,
            ArrayDiffDesc::BHas => ArrayDiffDesc::AMisses,
            ArrayDiffDesc::AMisses => ArrayDiffDesc::BHas,
        },
        value: diff.value,
    }
}

/// Every record has its partner among the records.
pub open spec fn complementary(arrays: Seq<ArrayDiffView>) -> bool {
    forall|i: int| 0 <= i < arrays.len() ==> arrays.contains(partner(#[trigger] arrays[i]))
}

/// A concatenation contains what one of its parts contains.
pub proof fn lemma_contains_concat<T>(x: Seq<T>, y: Seq<T>, item: T)
    ensures
        (x + y).contains(item) == (x.contains(item) || y.contains(item)),
{
    if x.contains(item) {
        let i = choose|i: int| 0 <= i < x.len() && x[i] == item;
        assert((x + y)[i] == item);
    }
    if y.contains(item) {
        let i = choose|i: int| 0 <= i < y.len() && y[i] == item;
        assert((x + y)[x.len() + i] == item);
    }
    if (x + y).contains(item) {
        let i = choose|i: int| 0 <= i < (x + y).len() && (x + y)[i] == item;
        if i < x.len() {
            assert(x[i] == item);
        } else {
            assert(y[i - x.len()] == item);
        }
    }
}

proof fn lemma_complementary_concat(x: Seq<ArrayDiffView>, y: Seq<ArrayDiffView>)
    requires
        complementary(x),
        complementary(y),
    ensures
        complementary(x + y),
{
    let all = x + y;
    assert forall|i: int| 0 <= i < all.len() implies all.contains(partner(#[trigger] all[i])) by {
        lemma_contains_concat(x, y, partner(all[i]));
        if i < x.len() {
            assert(all[i] == x[i]);
        } else {
            assert(all[i] == y[i - x.len()]);
        }
    }
}

proof fn lemma_paired_complementary(
    key: Seq<char>,
    texts: Seq<Seq<char>>,
    has: ArrayDiffDesc,
    misses: ArrayDiffDesc,
)
    requires
        has == ArrayDiffDesc::AHas && misses == ArrayDiffDesc::BMisses || has
            == ArrayDiffDesc::BHas && misses == ArrayDiffDesc::AMisses,
    ensures
        complementary(paired(key, texts, has, misses)),
{
    let all = paired(key, texts, has, misses);
    assert forall|i: int| 0 <= i < all.len() implies all.contains(partner(#[trigger] all[i])) by {
        if i % 2 == 0 {
            assert(all[i + 1] == partner(all[i]));
        } else {
            assert(all[i - 1] == partner(all[i]));
        }
    }
}

proof fn lemma_unordered_complementary(key: Seq<char>, a: Seq<Json>, b: Seq<Json>)
    ensures
        complementary(unordered_diffs(key, a, b)),
{
    let in_a = canonical_each(a);
    let in_b = canonical_each(b);
    lemma_paired_complementary(
        key,
        surplus(in_a, in_b),
        ArrayDiffDesc::AHas,
        ArrayDiffDesc::BMisses,
    );
    lemma_paired_complementary(
        key,
        surplus(in_b, in_a),
        ArrayDiffDesc::BHas,
        ArrayDiffDesc::AMisses,
    );
    lemma_complementary_concat(
        paired(key, surplus(in_a, in_b), ArrayDiffDesc::AHas, ArrayDiffDesc::BMisses),
        paired(key, surplus(in_b, in_a), ArrayDiffDesc::BHas, ArrayDiffDesc::AMisses),
    );
}

/// Complementary descriptors: among the array differences of a comparison,
/// every record that A has an element goes with a record, of the same key and
/// value, that B misses it, and every record that B misses one with a record
/// that A has it; the same holds with the sides exchanged. This holds in
/// either array mode.
pub proof fn law_complementary(key: Seq<char>, a: Json, b: Json, context: ContextView)
    ensures
        complementary(field_diffs(key, a, b, context).arrays),
    decreases a, 0nat,
{
    let none = Seq::<ArrayDiffView>::empty();
    assert(complementary(none));
    if a is Null || b is Null {
        lemma_unordered_complementary(
            key,
            items_of(a),
            items_of(b),
        );
    } else if a.kind() == b.kind() {
        match a {
            Json::Array(items) => {
                if context.array_same_order {
                    let n = if items.len() >= b->Array_0.len() {
                        items.len()
                    } else {
                        b->Array_0.len()
                    };
                    lemma_ordered_complementary(key, items, b->Array_0, n, context);
                } else {
                    lemma_unordered_complementary(key, items, b->Array_0);
                }
            },
            Json::Object(entries) => {
                lemma_left_complementary(key, entries, b->Object_0, entries.len(), context);
            },
            _ => {},
        }
    }
}

/// Complementary descriptors of two root objects: the law holds of what the
/// array finder returns.
pub proof fn law_complementary_of_objects(
    key: Seq<char>,
    a: Seq<(Seq<char>, Json)>,
    b: Seq<(Seq<char>, Json)>,
    context: ContextView,
)
    ensures
        complementary(object_diffs(key, a, b, context).arrays),
{
    law_complementary(key, Json::Object(a), Json::Object(b), context);
}

proof fn lemma_ordered_complementary(
    key: Seq<char>,
    a: Seq<Json>,
    b: Seq<Json>,
    n: nat,
    context: ContextView,
)
    ensures
        complementary(ordered_walk(key, a, b, n, context).arrays),
    decreases a, n,
{
    let none = Seq::<ArrayDiffView>::empty();
    assert(complementary(none));
    if n > 0 {
        let i = n - 1;
        let path = index_path(key, i as nat);
        lemma_ordered_complementary(key, a, b, i as nat, context);
        if i < a.len() && i < b.len() {
            law_complementary(path, a[i], b[i], context);
        } else if i < a.len() {
            lemma_unordered_complementary(path, items_of(a[i]), Seq::empty());
        } else if i < b.len() {
            lemma_unordered_complementary(path, Seq::empty(), items_of(b[i]));
        }
        lemma_complementary_concat(
            ordered_walk(key, a, b, i as nat, context).arrays,
            index_diffs(key, a, b, i, context).arrays,
        );
    }
}

proof fn lemma_left_complementary(
    key: Seq<char>,
    a: Seq<(Seq<char>, Json)>,
    b: Seq<(Seq<char>, Json)>,
    n: nat,
    context: ContextView,
)
    ensures
        complementary(left_walk(key, a, b, n, context).arrays),
    decreases a, n,
{
    let none = Seq::<ArrayDiffView>::empty();
    assert(complementary(none));
    if n > 0 {
        let i = n - 1;
        lemma_left_complementary(key, a, b, i as nat, context);
        if i < a.len() {
            let at = position(b, a[i].0);
            if 0 <= at < b.len() {
                law_complementary(child_path(key, a[i].0), a[i].1, b[at].1, context);
            }
        }
        lemma_complementary_concat(
            left_walk(key, a, b, i as nat, context).arrays,
            entry_diffs(key, a, b, i, context).arrays,
        );
    }
}

/// A key difference with the two sides exchanged.
pub open spec fn flipped(diff: KeyDiffView) -> KeyDiffView {
    KeyDiffView { key: diff.key, has: diff.misses, misses: diff.has }
}

/// Every record of `x`, with the sides exchanged, is a record of `y`.
pub open spec fn flips_into(x: Seq<KeyDiffView>, y: Seq<KeyDiffView>) -> bool {
    forall|i: int| 0 <= i < x.len() ==> y.contains(flipped(#[trigger] x[i]))
}

/// Every record of `x` is a record of `y`.
pub open spec fn within(x: Seq<KeyDiffView>, y: Seq<KeyDiffView>) -> bool {
    forall|i: int| 0 <= i < x.len() ==> y.contains(#[trigger] x[i])
}

proof fn lemma_flips_concat(x1: Seq<KeyDiffView>, x2: Seq<KeyDiffView>, y: Seq<KeyDiffView>)
    requires
        flips_into(x1, y),
        flips_into(x2, y),
    ensures
        flips_into(x1 + x2, y),
{
    let all = x1 + x2;
    assert forall|i: int| 0 <= i < all.len() implies y.contains(flipped(#[trigger] all[i])) by {
        if i < x1.len() {
            assert(all[i] == x1[i]);
        } else {
            assert(all[i] == x2[i - x1.len()]);
        }
    }
}

proof fn lemma_flips_widen(x: Seq<KeyDiffView>, y: Seq<KeyDiffView>, z: Seq<KeyDiffView>)
    requires
        flips_into(x, y),
        within(y, z),
    ensures
        flips_into(x, z),
{
    assert forall|i: int| 0 <= i < x.len() implies z.contains(flipped(#[trigger] x[i])) by {
        let k = choose|k: int| 0 <= k < y.len() && y[k] == flipped(x[i]);
        assert(z.contains(y[k]));
    }
}

proof fn lemma_within_concat(x: Seq<KeyDiffView>, y: Seq<KeyDiffView>)
    ensures
        within(x, x + y),
        within(y, x + y),
{
    assert forall|i: int| 0 <= i < x.len() implies (x + y).contains(#[trigger] x[i]) by {
        assert((x + y)[i] == x[i]);
    }
    assert forall|i: int| 0 <= i < y.len() implies (x + y).contains(#[trigger] y[i]) by {
        assert((x + y)[x.len() + i] == y[i]);
    }
}

proof fn lemma_within_chain(x: Seq<KeyDiffView>, y: Seq<KeyDiffView>, z: Seq<KeyDiffView>)
    requires
        within(x, y),
        within(y, z),
    ensures
        within(x, z),
{
    assert forall|i: int| 0 <= i < x.len() implies z.contains(#[trigger] x[i]) by {
        let k = choose|k: int| 0 <= k < y.len() && y[k] == x[i];
        assert(z.contains(y[k]));
    }
}

/// What one entry gives is part of what the walk over the entries gives.
proof fn lemma_left_within(
    key: Seq<char>,
    a: Seq<(Seq<char>, Json)>,
    b: Seq<(Seq<char>, Json)>,
    n: nat,
    i: int,
    context: ContextView,
)
    requires
        0 <= i < n,
    ensures
        within(entry_diffs(key, a, b, i, context).keys, left_walk(key, a, b, n, context).keys),
    decreases n,
{
    let before = left_walk(key, a, b, (n - 1) as nat, context).keys;
    let here = entry_diffs(key, a, b, n - 1, context).keys;
    lemma_within_concat(before, here);
    if i < n - 1 {
        lemma_left_within(key, a, b, (n - 1) as nat, i, context);
        lemma_within_chain(entry_diffs(key, a, b, i, context).keys, before, before + here);
    }
}

/// What one index gives is part of what the walk over the indices gives.
proof fn lemma_ordered_within(
    key: Seq<char>,
    a: Seq<Json>,
    b: Seq<Json>,
    n: nat,
    i: int,
    context: ContextView,
)
    requires
        0 <= i < n,
    ensures
        within(index_diffs(key, a, b, i, context).keys, ordered_walk(key, a, b, n, context).keys),
    decreases n,
{
    let before = ordered_walk(key, a, b, (n - 1) as nat, context).keys;
    let here = index_diffs(key, a, b, n - 1, context).keys;
    lemma_within_concat(before, here);
    if i < n - 1 {
        lemma_ordered_within(key, a, b, (n - 1) as nat, i, context);
        lemma_within_chain(index_diffs(key, a, b, i, context).keys, before, before + here);
    }
}

/// The key difference that the walk over `b` gives for an entry whose key
/// `a` does not have.
pub open spec fn only_in_b(key: Seq<char>, entry_key: Seq<char>, context: ContextView) -> KeyDiffView {
    KeyDiffView {
        key: child_path(key, entry_key),
        has: context.file_b,
        misses: context.file_a,
    }
}

proof fn lemma_right_has(
    key: Seq<char>,
    a: Seq<(Seq<char>, Json)>,
    b: Seq<(Seq<char>, Json)>,
    n: nat,
    j: int,
    context: ContextView,
)
    requires
        0 <= j < n <= b.len(),
        position(a, b[j].0) >= a.len(),
    ensures
        right_walk(key, a, b, n, context).contains(only_in_b(key, b[j].0, context)),
    decreases n,
{
    let now = right_walk(key, a, b, n, context);
    if j == n - 1 {
        assert(now[now.len() - 1] == only_in_b(key, b[j].0, context));
    } else {
        lemma_right_has(key, a, b, (n - 1) as nat, j, context);
        let before = right_walk(key, a, b, (n - 1) as nat, context);
        let k = choose|k: int| 0 <= k < before.len() && before[k] == only_in_b(key, b[j].0, context);
        assert(now[k] == before[k]);
    }
}

/// The entry `j` of `b` has a key that `a` does not have.
pub open spec fn missing_at(a: Seq<(Seq<char>, Json)>, b: Seq<(Seq<char>, Json)>, j: int) -> bool {
    position(a, b[j].0) >= a.len()
}

/// The record is the key difference of one of the first `n` entries of `b`
/// whose key `a` does not have.
pub open spec fn from_missing(
    key: Seq<char>,
    a: Seq<(Seq<char>, Json)>,
    b: Seq<(Seq<char>, Json)>,
    n: nat,
    context: ContextView,
    diff: KeyDiffView,
) -> bool {
    exists|j: int|
        0 <= j < n && #[trigger] missing_at(a, b, j) && diff == only_in_b(key, b[j].0, context)
}

proof fn lemma_right_members(
    key: Seq<char>,
    a: Seq<(Seq<char>, Json)>,
    b: Seq<(Seq<char>, Json)>,
    n: nat,
    context: ContextView,
)
    requires
        n <= b.len(),
    ensures
        forall|k: int|
            0 <= k < right_walk(key, a, b, n, context).len() ==> from_missing(
                key,
                a,
                b,
                n,
                context,
                #[trigger] right_walk(key, a, b, n, context)[k],
            ),
    decreases n,
{
    if n > 0 {
        lemma_right_members(key, a, b, (n - 1) as nat, context);
        let before = right_walk(key, a, b, (n - 1) as nat, context);
        let now = right_walk(key, a, b, n, context);
        assert forall|k: int| 0 <= k < now.len() implies from_missing(
            key,
            a,
            b,
            n,
            context,
            #[trigger] now[k],
        ) by {
            if k < before.len() {
                assert(now[k] == before[k]);
                assert(from_missing(key, a, b, (n - 1) as nat, context, before[k]));
                let j = choose|j: int|
                    0 <= j < n - 1 && #[trigger] missing_at(a, b, j) && before[k] == only_in_b(
                        key,
                        b[j].0,
                        context,
                    );
                assert(missing_at(a, b, j));
            } else {
                assert(missing_at(a, b, n - 1));
            }
        }
    }
}

/// A value without a counterpart gives the same keys on either side, with the
/// sides exchanged.
proof fn lemma_one_sided_flip(key: Seq<char>, value: Json, on_a: bool, context: ContextView)
    ensures
        flips_into(
            one_sided(key, value, on_a, context).keys,
            one_sided(key, value, !on_a, context).keys,
        ),
{
    let x = one_sided(key, value, on_a, context).keys;
    let y = one_sided(key, value, !on_a, context).keys;
    assert forall|i: int| 0 <= i < x.len() implies y.contains(flipped(#[trigger] x[i])) by {
        assert(y[i] == flipped(x[i]));
    }
}

/// One half of the symmetry: every key difference of `a` against `b`, with
/// the sides exchanged, is a key difference of `b` against `a`.
pub proof fn lemma_keys_flip(key: Seq<char>, a: Json, b: Json, context: ContextView)
    requires
        a.well_formed(),
        b.well_formed(),
    ensures
        flips_into(field_diffs(key, a, b, context).keys, field_diffs(key, b, a, context).keys),
    decreases a, 0nat,
{
    let x = field_diffs(key, a, b, context).keys;
    let y = field_diffs(key, b, a, context).keys;
    if a is Null || b is Null {
        assert forall|i: int| 0 <= i < x.len() implies y.contains(flipped(#[trigger] x[i])) by {
            assert(y[i] == flipped(x[i]));
        }
    } else if a.kind() == b.kind() {
        match a {
            Json::Array(items) => {
                if context.array_same_order {
                    let others = b->Array_0;
                    let n = if items.len() >= others.len() {
                        items.len()
                    } else {
                        others.len()
                    };
                    lemma_ordered_flip(key, items, others, n, n, context);
                }
            },
            Json::Object(entries) => {
                let others = b->Object_0;
                lemma_well_formed_object(entries);
                lemma_well_formed_object(others);
                lemma_left_flip(key, entries, others, entries.len(), context);
                let left = left_walk(key, entries, others, entries.len(), context).keys;
                let right = right_walk(key, entries, others, others.len(), context);
                let back_left = left_walk(key, others, entries, others.len(), context).keys;
                let back_right = right_walk(key, others, entries, entries.len(), context);
                lemma_right_members(key, entries, others, others.len(), context);
                assert forall|k: int| 0 <= k < right.len() implies y.contains(
                    flipped(#[trigger] right[k]),
                ) by {
                    assert(from_missing(key, entries, others, others.len(), context, right[k]));
                    let j = choose|j: int|
                        0 <= j < others.len() && #[trigger] missing_at(entries, others, j)
                            && right[k] == only_in_b(key, others[j].0, context);
                    let here = entry_diffs(key, others, entries, j, context).keys;
                    assert(here[0] == flipped(right[k]));
                    lemma_left_within(key, others, entries, others.len(), j, context);
                    assert(back_left.contains(here[0]));
                    lemma_contains_concat(back_left, back_right, flipped(right[k]));
                }
                lemma_flips_concat(left, right, y);
            },
            _ => {},
        }
    }
}

proof fn lemma_ordered_flip(
    key: Seq<char>,
    a: Seq<Json>,
    b: Seq<Json>,
    n: nat,
    end: nat,
    context: ContextView,
)
    requires
        Json::Array(a).well_formed(),
        Json::Array(b).well_formed(),
        n <= end,
    ensures
        flips_into(
            ordered_walk(key, a, b, n, context).keys,
            ordered_walk(key, b, a, end, context).keys,
        ),
    decreases a, n,
{
    if n > 0 {
        let i = n - 1;
        let path = index_path(key, i as nat);
        let target = ordered_walk(key, b, a, end, context).keys;
        lemma_ordered_flip(key, a, b, i as nat, end, context);
        lemma_well_formed_array(a);
        lemma_well_formed_array(b);
        if i < a.len() && i < b.len() {
            lemma_keys_flip(path, a[i], b[i], context);
        } else if i < a.len() {
            lemma_one_sided_flip(path, a[i], true, context);
        } else if i < b.len() {
            lemma_one_sided_flip(path, b[i], false, context);
        }
        lemma_ordered_within(key, b, a, end, i, context);
        lemma_flips_widen(
            index_diffs(key, a, b, i, context).keys,
            index_diffs(key, b, a, i, context).keys,
            target,
        );
        lemma_flips_concat(
            ordered_walk(key, a, b, i as nat, context).keys,
            index_diffs(key, a, b, i, context).keys,
            target,
        );
    }
}

proof fn lemma_left_flip(
    key: Seq<char>,
    a: Seq<(Seq<char>, Json)>,
    b: Seq<(Seq<char>, Json)>,
    n: nat,
    context: ContextView,
)
    requires
        Json::Object(a).well_formed(),
        Json::Object(b).well_formed(),
        n <= a.len(),
    ensures
        flips_into(
            left_walk(key, a, b, n, context).keys,
            object_diffs(key, b, a, context).keys,
        ),
    decreases a, n,
{
    if n > 0 {
        let i = n - 1;
        let target = object_diffs(key, b, a, context).keys;
        let back_left = left_walk(key, b, a, b.len(), context).keys;
        let back_right = right_walk(key, b, a, a.len(), context);
        let here = entry_diffs(key, a, b, i, context).keys;
        lemma_left_flip(key, a, b, i as nat, context);
        lemma_well_formed_object(a);
        lemma_well_formed_object(b);
        lemma_find_from(b, a[i].0, 0);
        lemma_within_concat(back_left, back_right);
        let at = position(b, a[i].0);
        if at < b.len() {
            let path = child_path(key, a[i].0);
            lemma_keys_flip(path, a[i].1, b[at].1, context);
            lemma_position_own(a, i);
            let back = entry_diffs(key, b, a, at, context).keys;
            assert(back == field_diffs(path, b[at].1, a[i].1, context).keys);
            lemma_left_within(key, b, a, b.len(), at, context);
            lemma_within_chain(back, back_left, target);
            lemma_flips_widen(here, back, target);
        } else {
            lemma_right_has(key, b, a, a.len(), i, context);
            assert forall|k: int| 0 <= k < here.len() implies target.contains(
                flipped(#[trigger] here[k]),
            ) by {
                assert(flipped(here[k]) == only_in_b(key, a[i].0, context));
                lemma_contains_concat(back_left, back_right, flipped(here[k]));
            }
        }
        lemma_flips_concat(left_walk(key, a, b, i as nat, context).keys, here, target);
    }
}

/// Symmetry: with the two documents exchanged, the key differences are the
/// same records with `has` and `misses` exchanged. A record is a key
/// difference of `a` against `b` exactly when the record with the sides
/// exchanged is a key difference of `b` against `a`; so both comparisons
/// report the same keys.
pub proof fn law_symmetry(key: Seq<char>, a: Json, b: Json, context: ContextView)
    requires
        a.well_formed(),
        b.well_formed(),
    ensures
        forall|diff: KeyDiffView|
            field_diffs(key, a, b, context).keys.contains(diff) <==> #[trigger] field_diffs(
                key,
                b,
                a,
                context,
            ).keys.contains(flipped(diff)),
{
    let x = field_diffs(key, a, b, context).keys;
    let y = field_diffs(key, b, a, context).keys;
    lemma_keys_flip(key, a, b, context);
    lemma_keys_flip(key, b, a, context);
    assert forall|diff: KeyDiffView| x.contains(diff) <==> #[trigger] y.contains(
        flipped(diff),
    ) by {
        if x.contains(diff) {
            let i = choose|i: int| 0 <= i < x.len() && x[i] == diff;
            assert(y.contains(flipped(x[i])));
        }
        if y.contains(flipped(diff)) {
            let i = choose|i: int| 0 <= i < y.len() && y[i] == flipped(diff);
            assert(x.contains(flipped(y[i])));
            assert(flipped(flipped(diff)) == diff);
        }
    }
}

/// Symmetry of two root objects: the law holds of what the key finder
/// returns.
pub proof fn law_symmetry_of_objects(
    key: Seq<char>,
    a: Seq<(Seq<char>, Json)>,
    b: Seq<(Seq<char>, Json)>,
    context: ContextView,
)
    requires
        Json::Object(a).well_formed(),
        Json::Object(b).well_formed(),
    ensures
        forall|diff: KeyDiffView|
            object_diffs(key, a, b, context).keys.contains(diff) <==> #[trigger] object_diffs(
                key,
                b,
                a,
                context,
            ).keys.contains(flipped(diff)),
{
    law_symmetry(key, Json::Object(a), Json::Object(b), context);
    assert(Json::Object(a)->Object_0 == a);
    assert(Json::Object(b)->Object_0 == b);
    assert(field_diffs(key, Json::Object(a), Json::Object(b), context) == object_diffs(
        key,
        a,
        b,
        context,
    ));
    assert(field_diffs(key, Json::Object(b), Json::Object(a), context) == object_diffs(
        key,
        b,
        a,
        context,
    ));
}

/// Multiplicity: a text occurs in the surplus of `a` over `b` as often as `a`
/// holds it beyond the number of times that `b` holds it.
pub proof fn law_surplus_counts(a: Seq<Seq<char>>, b: Seq<Seq<char>>, text: Seq<char>)
    ensures
        count(surplus(a, b), text) == if count(a, text) > count(b, text) {
            count(a, text) - count(b, text)
        } else {
            0
        },
    decreases a.len(),
{
    if a.len() > 0 {
        law_surplus_counts(a.drop_last(), b, text);
        let before = surplus(a.drop_last(), b);
        if count(a.drop_last(), a.last()) >= count(b, a.last()) {
            assert(before.push(a.last()).drop_last() =~= before);
        }
    }
}

/// Where `b` holds every text at least as often as `a` does, `a` has no
/// surplus over `b`.
pub proof fn lemma_no_surplus(a: Seq<Seq<char>>, b: Seq<Seq<char>>, n: int)
    requires
        0 <= n <= a.len(),
        forall|text: Seq<char>| count(a, text) <= #[trigger] count(b, text),
    ensures
        surplus(a.take(n), b) == Seq::<Seq<char>>::empty(),
    decreases n,
{
    if n > 0 {
        lemma_no_surplus(a, b, n - 1);
        assert(a.take(n).drop_last() =~= a.take(n - 1));
        lemma_count_prefix(a, n - 1, a[n - 1]);
        assert(count(a, a[n - 1]) <= count(b, a[n - 1]));
    }
}

/// Without regard to position: two arrays that hold every element equally
/// often, in whatever order, give no array difference when they are compared
/// as collections.
pub proof fn law_unordered_ignores_order(key: Seq<char>, a: Seq<Json>, b: Seq<Json>)
    requires
        forall|text: Seq<char>|
            count(canonical_each(a), text) == #[trigger] count(canonical_each(b), text),
    ensures
        unordered_diffs(key, a, b) == Seq::<ArrayDiffView>::empty(),
{
    let in_a = canonical_each(a);
    let in_b = canonical_each(b);
    assert forall|text: Seq<char>| count(in_b, text) <= #[trigger] count(in_a, text) by {
        assert(count(in_a, text) == count(in_b, text));
    }
    lemma_no_surplus(in_a, in_b, in_a.len() as int);
    lemma_no_surplus(in_b, in_a, in_b.len() as int);
    assert(in_a.take(in_a.len() as int) =~= in_a);
    assert(in_b.take(in_b.len() as int) =~= in_b);
    assert(unordered_diffs(key, a, b) =~= Seq::<ArrayDiffView>::empty());
}

/// The key difference names the two sides of the comparison, one as the side
/// that has the key and the other as the side that misses it.
pub open spec fn names_both_sides(diff: KeyDiffView, context: ContextView) -> bool {
    ||| diff.has == context.file_a && diff.misses == context.file_b
    ||| diff.has == context.file_b && diff.misses == context.file_a
}

/// Every key difference names both sides, and every type difference names two
/// different kinds.
pub open spec fn sound(diffs: Diffs, context: ContextView) -> bool {
    &&& forall|i: int|
        0 <= i < diffs.keys.len() ==> names_both_sides(#[trigger] diffs.keys[i], context)
    &&& forall|i: int|
        0 <= i < diffs.types.len() ==> (#[trigger] diffs.types[i]).type1 != diffs.types[i].type2
}

proof fn lemma_sound_concat(x: Diffs, y: Diffs, context: ContextView)
    requires
        sound(x, context),
        sound(y, context),
    ensures
        sound(x.concat(y), context),
{
    let all = x.concat(y);
    assert forall|i: int| 0 <= i < all.keys.len() implies names_both_sides(
        #[trigger] all.keys[i],
        context,
    ) by {
        if i < x.keys.len() {
            assert(all.keys[i] == x.keys[i]);
        } else {
            assert(all.keys[i] == y.keys[i - x.keys.len()]);
        }
    }
    assert forall|i: int| 0 <= i < all.types.len() implies (#[trigger] all.types[i]).type1
        != all.types[i].type2 by {
        if i < x.types.len() {
            assert(all.types[i] == x.types[i]);
        } else {
            assert(all.types[i] == y.types[i - x.types.len()]);
        }
    }
}

/// The records of a comparison are sound: every key difference names the two
/// sides of the context, one as having and the other as missing the key, and
/// every type difference names two different kinds.
pub proof fn law_sound_records(key: Seq<char>, a: Json, b: Json, context: ContextView)
    ensures
        sound(field_diffs(key, a, b, context), context),
    decreases a, 0nat,
{
    if a is Null || b is Null {
        // A null pair gives no type difference, and its key differences are
        // those of the entries of one side.
    } else if a.kind() != b.kind() {
        lemma_names_differ(a.kind(), b.kind());
    } else {
        match a {
            Json::Array(items) => {
                if context.array_same_order {
                    let n = if items.len() >= b->Array_0.len() {
                        items.len()
                    } else {
                        b->Array_0.len()
                    };
                    lemma_ordered_sound(key, items, b->Array_0, n, context);
                }
            },
            Json::Object(entries) => {
                let others = b->Object_0;
                lemma_left_sound(key, entries, others, entries.len(), context);
                lemma_right_members(key, entries, others, others.len(), context);
                let right = right_walk(key, entries, others, others.len(), context);
                assert forall|i: int| 0 <= i < right.len() implies names_both_sides(
                    #[trigger] right[i],
                    context,
                ) by {
                    assert(from_missing(key, entries, others, others.len(), context, right[i]));
                }
                let left = left_walk(key, entries, others, entries.len(), context);
                lemma_sound_concat(
                    left,
                    Diffs {
                        keys: right,
                        types: Seq::empty(),
                        values: Seq::empty(),
                        arrays: Seq::empty(),
                    },
                    context,
                );
                assert(object_diffs(key, entries, others, context).types =~= left.types
                    + Seq::empty());
            },
            _ => {},
        }
    }
}

proof fn lemma_ordered_sound(
    key: Seq<char>,
    a: Seq<Json>,
    b: Seq<Json>,
    n: nat,
    context: ContextView,
)
    ensures
        sound(ordered_walk(key, a, b, n, context), context),
    decreases a, n,
{
    if n > 0 {
        let i = n - 1;
        lemma_ordered_sound(key, a, b, i as nat, context);
        if i < a.len() && i < b.len() {
            law_sound_records(index_path(key, i as nat), a[i], b[i], context);
        }
        lemma_sound_concat(
            ordered_walk(key, a, b, i as nat, context),
            index_diffs(key, a, b, i, context),
            context,
        );
    }
}

proof fn lemma_left_sound(
    key: Seq<char>,
    a: Seq<(Seq<char>, Json)>,
    b: Seq<(Seq<char>, Json)>,
    n: nat,
    context: ContextView,
)
    ensures
        sound(left_walk(key, a, b, n, context), context),
    decreases a, n,
{
    if n > 0 {
        let i = n - 1;
        lemma_left_sound(key, a, b, i as nat, context);
        if i < a.len() {
            let at = position(b, a[i].0);
            if 0 <= at < b.len() {
                law_sound_records(child_path(key, a[i].0), a[i].1, b[at].1, context);
            }
        }
        lemma_sound_concat(
            left_walk(key, a, b, i as nat, context),
            entry_diffs(key, a, b, i, context),
            context,
        );
    }
}

/// An object against an object without entries gives what the null handler
/// gives for it: every key as a key difference, and nothing else.
pub proof fn law_object_against_none(
    key: Seq<char>,
    entries: Seq<(Seq<char>, Json)>,
    context: ContextView,
)
    ensures
        object_diffs(key, entries, Seq::empty(), context) == null_pair_diffs(
            key,
            Json::Object(entries),
            Json::Null,
            context,
        ),
        object_diffs(key, Seq::empty(), entries, context) == null_pair_diffs(
            key,
            Json::Null,
            Json::Object(entries),
            context,
        ),
{
    let none = Seq::<(Seq<char>, Json)>::empty();
    lemma_left_against_none(key, entries, entries.len(), context);
    lemma_right_against_none(key, entries, entries.len(), context);
    assert(entries.take(entries.len() as int) =~= entries);
    let held = absent_keys(key, entries, context.file_a, context.file_b);
    let missed = absent_keys(key, entries, context.file_b, context.file_a);
    assert(object_diffs(key, entries, none, context).keys =~= held);
    assert(object_diffs(key, none, entries, context).keys =~= missed);
    assert(null_pair_diffs(key, Json::Object(entries), Json::Null, context).keys
        =~= held);
    assert(null_pair_diffs(key, Json::Null, Json::Object(entries), context).keys
        =~= missed);
}

proof fn lemma_left_against_none(
    key: Seq<char>,
    entries: Seq<(Seq<char>, Json)>,
    n: nat,
    context: ContextView,
)
    requires
        n <= entries.len(),
    ensures
        left_walk(key, entries, Seq::empty(), n, context) == (Diffs {
            keys: absent_keys(
                key,
                entries.take(n as int),
                context.file_a,
                context.file_b,
            ),
            types: Seq::empty(),
            values: Seq::empty(),
            arrays: Seq::empty(),
        }),
    decreases n,
{
    let none = Seq::<(Seq<char>, Json)>::empty();
    let now = left_walk(key, entries, none, n, context);
    let want = absent_keys(
        key,
        entries.take(n as int),
        context.file_a,
        context.file_b,
    );
    if n > 0 {
        lemma_left_against_none(key, entries, (n - 1) as nat, context);
        let before = absent_keys(
            key,
            entries.take(n - 1),
            context.file_a,
            context.file_b,
        );
        assert(now.keys =~= before + entry_diffs(key, entries, none, n - 1, context).keys);
        assert(now.keys =~= want);
        assert(now.types =~= Seq::empty());
        assert(now.values =~= Seq::empty());
        assert(now.arrays =~= Seq::empty());
    } else {
        assert(now.keys =~= want);
    }
}

proof fn lemma_right_against_none(
    key: Seq<char>,
    entries: Seq<(Seq<char>, Json)>,
    n: nat,
    context: ContextView,
)
    requires
        n <= entries.len(),
    ensures
        right_walk(key, Seq::empty(), entries, n, context) == absent_keys(
            key,
            entries.take(n as int),
            context.file_b,
            context.file_a,
        ),
    decreases n,
{
    let none = Seq::<(Seq<char>, Json)>::empty();
    let now = right_walk(key, none, entries, n, context);
    let want = absent_keys(
        key,
        entries.take(n as int),
        context.file_b,
        context.file_a,
    );
    if n > 0 {
        lemma_right_against_none(key, entries, (n - 1) as nat, context);
    }
    assert(now =~= want);
}

} // verus!
