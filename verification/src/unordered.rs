//! Arrays compared as collections of elements, without regard to position.

use vstd::prelude::*;
use crate::diff_spec::{count, paired, surplus, unordered_diffs};
use crate::diff_types::{ArrayDiff, ArrayDiffDesc};
use crate::serialize::serialize_each;
use crate::value::Value;

verus! {

/// Counts how often `text` occurs among the first `upto` texts.
pub fn occurrences(texts: &Vec<String>, upto: usize, text: &String) -> (n: usize)
    requires
        upto <= texts.len(),
    ensures
        n == count(texts.deep_view().take(upto as int), text@),
        n <= upto,
{
    let ghost all = texts.deep_view();
    let mut n: usize = 0;
    let mut i: usize = 0;
    while i < upto
        invariant
            i <= upto <= texts.len(),
            all == texts.deep_view(),
            n <= i,
            n == count(all.take(i as int), text@),
        decreases upto - i,
    {
        proof {
            assert(all.take(i + 1).drop_last() =~= all.take(i as int));
            assert(all.take(i + 1).last() == texts@[i as int]@);
        }
        if texts[i] == *text {
            n += 1;
        }
        i += 1;
    }
    n
}

/// Collects the texts of `a` that `b` does not make up for.
pub fn surplus_of(a: &Vec<String>, b: &Vec<String>) -> (out: Vec<String>)
    ensures
        out.deep_view() == surplus(a.deep_view(), b.deep_view()),
{
    let ghost in_a = a.deep_view();
    let ghost in_b = b.deep_view();
    let mut out: Vec<String> = Vec::new();
    let mut i: usize = 0;
    assert(out.deep_view() =~= surplus(in_a.take(0), in_b));
    while i < a.len()
        invariant
            i <= a.len(),
            in_a == a.deep_view(),
            in_b == b.deep_view(),
            out.deep_view() == surplus(in_a.take(i as int), in_b),
        decreases a.len() - i,
    {
        let before = occurrences(a, i, &a[i]);
        let other = occurrences(b, b.len(), &a[i]);
        proof {
            assert(in_a.take(i + 1).drop_last() =~= in_a.take(i as int));
            assert(in_a.take(i + 1).last() == a@[i as int]@);
            assert(in_b.take(b.len() as int) =~= in_b);
        }
        if before >= other {
            let ghost earlier = out.deep_view();
            out.push(a[i].clone());
            assert(out.deep_view() =~= earlier.push(a@[i as int]@));
        }
        i += 1;
    }
    assert(in_a.take(a.len() as int) =~= in_a);
    out
}

/// Appends, for each text, a record with the descriptor `has` and one with the
/// descriptor `misses`.
pub fn push_pairs(
    out: &mut Vec<ArrayDiff>,
    key: &str,
    texts: &Vec<String>,
    has: ArrayDiffDesc,
    misses: ArrayDiffDesc,
)
    ensures
        final(out).deep_view() == old(out).deep_view() + paired(
            key@,
            texts.deep_view(),
            has,
            misses,
        ),
{
    let ghost start = out.deep_view();
    let ghost all = texts.deep_view();
    let mut i: usize = 0;
    assert(out.deep_view() =~= start + paired(key@, all.take(0), has, misses));
    while i < texts.len()
        invariant
            i <= texts.len(),
            all == texts.deep_view(),
            out.deep_view() == start + paired(key@, all.take(i as int), has, misses),
        decreases texts.len() - i,
    {
        let ghost earlier = out.deep_view();
        out.push(ArrayDiff::new(key.to_owned(), has, texts[i].clone()));
        out.push(ArrayDiff::new(key.to_owned(), misses, texts[i].clone()));
        proof {
            let now = out.deep_view();
            let want = start + paired(key@, all.take(i + 1), has, misses);
            assert(all.take(i as int).len() == i);
            assert(all.take(i + 1).len() == i + 1);
            assert(earlier.len() == start.len() + 2 * i);
            assert(now.len() == earlier.len() + 2);
            assert(now.len() == want.len());
            assert forall|k: int| 0 <= k < now.len() implies now[k] == want[k] by {
                if k < earlier.len() {
                    assert(now[k] == earlier[k]);
                }
            }
            assert(now =~= want);
        }
        i += 1;
    }
    assert(all.take(texts.len() as int) =~= all);
}

/// Compares two arrays as collections of elements.
pub fn unordered_array_diffs(key: &str, a: &Vec<Value>, b: &Vec<Value>) -> (out: Vec<ArrayDiff>)
    ensures
        out.deep_view() == unordered_diffs(key@, a.deep_view(), b.deep_view()),
{
    let in_a = serialize_each(a);
    let in_b = serialize_each(b);
    let only_a = surplus_of(&in_a, &in_b);
    let only_b = surplus_of(&in_b, &in_a);
    let mut out: Vec<ArrayDiff> = Vec::new();
    assert(out.deep_view() =~= Seq::empty());
    push_pairs(&mut out, key, &only_a, ArrayDiffDesc::AHas, ArrayDiffDesc::BMisses);
    push_pairs(&mut out, key, &only_b, ArrayDiffDesc::BHas, ArrayDiffDesc::AMisses);
    assert(out.deep_view() =~= unordered_diffs(key@, a.deep_view(), b.deep_view()));
    out
}

} // verus!
