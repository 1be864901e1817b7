//! Facts about `Seq::filter` that the store's proofs rest on.

use vstd::prelude::*;

verus! {

/// Filtering a sequence with one more element at its end keeps that element
/// where it passes, and otherwise gives what the shorter sequence gave.
pub proof fn lemma_filter_push<A>(s: Seq<A>, pred: spec_fn(A) -> bool, last: A)
    ensures
        s.push(last).filter(pred) == if pred(last) {
            s.filter(pred).push(last)
        } else {
            s.filter(pred)
        },
{
    reveal(Seq::filter);
    assert(s.push(last).drop_last() =~= s);
}

/// A sequence whose every element passes is its own filter.
pub proof fn lemma_filter_all<A>(s: Seq<A>, pred: spec_fn(A) -> bool)
    requires
        forall|i: int| 0 <= i < s.len() ==> pred(#[trigger] s[i]),
    ensures
        s.filter(pred) == s,
    decreases s.len(),
{
    reveal(Seq::filter);
    if s.len() > 0 {
        lemma_filter_all(s.drop_last(), pred);
        assert(s.drop_last().push(s.last()) =~= s);
    }
}

/// A sequence of which no element passes filters to nothing.
pub proof fn lemma_filter_none<A>(s: Seq<A>, pred: spec_fn(A) -> bool)
    requires
        forall|i: int| 0 <= i < s.len() ==> !pred(#[trigger] s[i]),
    ensures
        s.filter(pred) == Seq::<A>::empty(),
    decreases s.len(),
{
    reveal(Seq::filter);
    if s.len() > 0 {
        lemma_filter_none(s.drop_last(), pred);
    }
}

/// Every element of a filter is an element of the sequence, and passes.
pub proof fn lemma_filter_source<A>(s: Seq<A>, pred: spec_fn(A) -> bool, n: int)
    requires
        0 <= n < s.filter(pred).len(),
    ensures
        pred(s.filter(pred)[n]),
        exists|k: int| 0 <= k < s.len() && s[k] == s.filter(pred)[n],
    decreases s.len(),
{
    reveal(Seq::filter);
    if s.len() > 0 {
        let shorter = s.drop_last();
        if n < shorter.filter(pred).len() {
            lemma_filter_source(shorter, pred, n);
            let k = choose|k: int| 0 <= k < shorter.len() && shorter[k] == shorter.filter(pred)[n];
            assert(s[k] == s.filter(pred)[n]);
        } else {
            assert(s[s.len() - 1] == s.filter(pred)[n]);
        }
    }
}

/// Filtering by two tests in turn is filtering by both at once.
pub proof fn lemma_filter_twice<A>(
    s: Seq<A>,
    first: spec_fn(A) -> bool,
    second: spec_fn(A) -> bool,
    both: spec_fn(A) -> bool,
)
    requires
        forall|a: A| #[trigger] both(a) == (first(a) && second(a)),
    ensures
        s.filter(first).filter(second) == s.filter(both),
    decreases s.len(),
{
    reveal(Seq::filter);
    if s.len() > 0 {
        let shorter = s.drop_last();
        lemma_filter_twice(shorter, first, second, both);
        if first(s.last()) {
            lemma_filter_push(shorter.filter(first), second, s.last());
        }
    }
}

/// The elements that pass among the first `k` are no more than those that
/// pass among the first `m`, where `k` is at most `m`.
pub proof fn lemma_filter_take_grows<A>(s: Seq<A>, pred: spec_fn(A) -> bool, k: int, m: int)
    requires
        0 <= k <= m <= s.len(),
    ensures
        s.take(k).filter(pred).len() <= s.take(m).filter(pred).len(),
    decreases m - k,
{
    if k < m {
        lemma_filter_take_grows(s, pred, k, m - 1);
        assert(s.take(m) =~= s.take(m - 1).push(s[m - 1]));
        lemma_filter_push(s.take(m - 1), pred, s[m - 1]);
    }
}

/// Where the element at `k` passes, it stands in the filter at the position
/// that counts the elements passing before it.
pub proof fn lemma_filter_place<A>(s: Seq<A>, pred: spec_fn(A) -> bool, k: int)
    requires
        0 <= k < s.len(),
        pred(s[k]),
    ensures
        s.take(k).filter(pred).len() < s.filter(pred).len(),
        s.filter(pred)[s.take(k).filter(pred).len() as int] == s[k],
{
    assert(s.take(k + 1) =~= s.take(k).push(s[k]));
    lemma_filter_push(s.take(k), pred, s[k]);
    assert(s =~= s.take(k + 1) + s.skip(k + 1));
    Seq::filter_distributes_over_add(s.take(k + 1), s.skip(k + 1), pred);
}

/// Where the element at `k` passes and an earlier one at `j` passes too,
/// fewer elements pass before the earlier one than before the later one.
pub proof fn lemma_filter_place_ascends<A>(s: Seq<A>, pred: spec_fn(A) -> bool, j: int, k: int)
    requires
        0 <= j < k < s.len(),
        pred(s[j]),
    ensures
        s.take(j).filter(pred).len() < s.take(k).filter(pred).len(),
{
    assert(s.take(j + 1) =~= s.take(j).push(s[j]));
    lemma_filter_push(s.take(j), pred, s[j]);
    lemma_filter_take_grows(s, pred, j + 1, k);
}

/// A filter keeps the order of the sequence: where a number that is read
/// off each element ascends along the sequence, it ascends along the filter.
pub proof fn lemma_filter_ascends<A>(s: Seq<A>, pred: spec_fn(A) -> bool, key: spec_fn(A) -> int)
    requires
        forall|i: int, j: int| 0 <= i < j < s.len() ==> key(#[trigger] s[i]) < key(#[trigger] s[j]),
    ensures
        forall|i: int, j: int|
            0 <= i < j < s.filter(pred).len() ==> key(#[trigger] s.filter(pred)[i]) < key(
                #[trigger] s.filter(pred)[j],
            ),
    decreases s.len(),
{
    reveal(Seq::filter);
    if s.len() > 0 {
        let shorter = s.drop_last();
        assert forall|i: int, j: int| 0 <= i < j < shorter.len() implies key(
            #[trigger] shorter[i],
        ) < key(#[trigger] shorter[j]) by {
            assert(shorter[i] == s[i] && shorter[j] == s[j]);
        }
        lemma_filter_ascends(shorter, pred, key);
        let kept = shorter.filter(pred);
        assert forall|i: int, j: int| 0 <= i < j < s.filter(pred).len() implies key(
            #[trigger] s.filter(pred)[i],
        ) < key(#[trigger] s.filter(pred)[j]) by {
            if j == kept.len() {
                lemma_filter_source(shorter, pred, i);
                let k = choose|k: int| 0 <= k < shorter.len() && shorter[k] == kept[i];
                assert(s[k] == kept[i]);
                assert(s[s.len() - 1] == s.filter(pred)[j]);
            } else {
                assert(s.filter(pred)[i] == kept[i] && s.filter(pred)[j] == kept[j]);
            }
        }
    }
}

} // verus!
