//! Stable insertion sort as a specification: the order in which the
//! process listing, the process table and the network list are shown.
use vstd::prelude::*;

verus! {

/// Where `x` goes in `sorted` so that it follows every element that may come
/// before it: the length of the longest prefix ending in such an element,
/// searched from the back.
pub open spec fn insertion_point<T>(sorted: Seq<T>, x: T, before: spec_fn(T, T) -> bool) -> nat
    decreases sorted.len(),
{
    if sorted.len() == 0 {
        0
    } else if before(sorted.last(), x) {
        sorted.len()
    } else {
        insertion_point(sorted.drop_last(), x, before)
    }
}

/// `s` sorted by the order `before`, keeping the given order among elements
/// that may come before each other both ways (a stable sort).
pub open spec fn insertion_sort<T>(s: Seq<T>, before: spec_fn(T, T) -> bool) -> Seq<T>
    decreases s.len(),
{
    if s.len() == 0 {
        s
    } else {
        let sorted = insertion_sort(s.drop_last(), before);
        sorted.insert(insertion_point(sorted, s.last(), before) as int, s.last())
    }
}

/// Every element of `s` may come before every later one.
pub open spec fn sorted_by<T>(s: Seq<T>, before: spec_fn(T, T) -> bool) -> bool {
    forall|i: int, j: int| 0 <= i <= j < s.len() ==> before(s[i], s[j])
}

/// `before` is a total preorder: any two elements are related one way or
/// the other, and the relation is transitive.
pub open spec fn total_preorder<T>(before: spec_fn(T, T) -> bool) -> bool {
    &&& forall|a: T, b: T| #[trigger] before(a, b) || before(b, a)
    &&& forall|a: T, b: T, c: T| #[trigger] before(a, b) && #[trigger] before(b, c) ==> before(a, c)
}

proof fn lemma_insertion_point<T>(sorted: Seq<T>, x: T, before: spec_fn(T, T) -> bool)
    requires
        total_preorder(before),
        sorted_by(sorted, before),
    ensures
        insertion_point(sorted, x, before) <= sorted.len(),
        forall|i: int| 0 <= i < insertion_point(sorted, x, before) ==> before(#[trigger] sorted[i], x),
        forall|i: int| insertion_point(sorted, x, before) <= i < sorted.len() ==> !before(#[trigger] sorted[i], x),
    decreases sorted.len(),
{
    if sorted.len() > 0 {
        let last = sorted.len() - 1;
        if !before(sorted[last], x) {
            let prefix = sorted.drop_last();
            assert(sorted_by(prefix, before));
            lemma_insertion_point(prefix, x, before);
            let k = insertion_point(sorted, x, before);
            assert forall|i: int| 0 <= i < k implies before(#[trigger] sorted[i], x) by {
                assert(sorted[i] == prefix[i]);
            }
            assert forall|i: int| k <= i < sorted.len() implies !before(#[trigger] sorted[i], x) by {
                if i < last {
                    assert(sorted[i] == prefix[i]);
                }
            }
        } else {
            assert forall|i: int| 0 <= i < sorted.len() implies before(#[trigger] sorted[i], x) by {
                assert(before(sorted[i], sorted[last]));
            }
        }
    }
}

/// Insertion sort by a total preorder yields a sequence sorted by it that
/// holds exactly the given elements, each as often as given.
pub proof fn law_insertion_sort_sorted_permutation<T>(s: Seq<T>, before: spec_fn(T, T) -> bool)
    requires
        total_preorder(before),
    ensures
        sorted_by(insertion_sort(s, before), before),
        insertion_sort(s, before).to_multiset() == s.to_multiset(),
    decreases s.len(),
{
    broadcast use vstd::seq_lib::group_to_multiset_ensures, vstd::seq_lib::to_multiset_insert;

    if s.len() > 0 {
        let sorted = insertion_sort(s.drop_last(), before);
        law_insertion_sort_sorted_permutation(s.drop_last(), before);
        let x = s.last();
        lemma_insertion_point(sorted, x, before);
        let pos = insertion_point(sorted, x, before) as int;
        sorted.insert_ensures(pos, x);
        let r = sorted.insert(pos, x);
        assert forall|i: int, j: int| 0 <= i <= j < r.len() implies before(r[i], r[j]) by {
            if i == j {
                assert(before(r[i], r[i]) || before(r[i], r[i]));
            } else if j < pos {
                assert(r[i] == sorted[i] && r[j] == sorted[j]);
            } else if j == pos {
                assert(r[i] == sorted[i]);
            } else if i < pos {
                assert(r[i] == sorted[i] && r[j] == sorted[j - 1]);
                assert(before(x, sorted[j - 1]) || before(sorted[j - 1], x));
                assert(before(sorted[i], x));
            } else if i == pos {
                assert(r[j] == sorted[j - 1]);
                assert(before(x, sorted[j - 1]) || before(sorted[j - 1], x));
            } else {
                assert(r[i] == sorted[i - 1]);
                assert(r[j] == sorted[j - 1]);
            }
        }
        assert(s == s.drop_last().push(x));
    }
}

/// The insertion point lies within the sequence.
pub proof fn lemma_insertion_point_bound<T>(sorted: Seq<T>, x: T, before: spec_fn(T, T) -> bool)
    ensures
        insertion_point(sorted, x, before) <= sorted.len(),
    decreases sorted.len(),
{
    if sorted.len() > 0 {
        lemma_insertion_point_bound(sorted.drop_last(), x, before);
    }
}

/// Sorting a prefix one element longer inserts that element into the
/// sorted shorter prefix.
pub proof fn lemma_insertion_sort_step<T>(s: Seq<T>, i: int, before: spec_fn(T, T) -> bool)
    requires
        0 <= i < s.len(),
    ensures
        insertion_sort(s.take(i + 1), before) == insertion_sort(s.take(i), before).insert(
            insertion_point(insertion_sort(s.take(i), before), s[i], before) as int,
            s[i],
        ),
{
    assert(s.take(i + 1).drop_last() == s.take(i));
}

} // verus!
