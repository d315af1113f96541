//! Facts about sequences that hold the same elements in another order.

use vstd::prelude::*;

verus! {

/// How often an element passes a filter: as often as it occurs, if it meets
/// the condition, and never otherwise.
pub proof fn lemma_filter_count<A>(s: Seq<A>, pred: spec_fn(A) -> bool, x: A)
    ensures
        s.filter(pred).to_multiset().count(x) == if pred(x) {
            s.to_multiset().count(x)
        } else {
            0
        },
    decreases s.len(),
{
    broadcast use vstd::seq_lib::group_to_multiset_ensures;
    broadcast use vstd::multiset::group_multiset_axioms;

    if s.len() == 0 {
        s.lemma_filter_len(pred);
        assert(s.filter(pred) =~= Seq::<A>::empty());
        assert(s =~= Seq::<A>::empty());
    } else {
        let front = s.drop_last();
        let last = s.last();
        lemma_filter_count(front, pred, x);
        assert(s =~= front.push(last));
        front.lemma_filter_push(last, pred);
    }
}

/// Filtering two orders of the same elements gives two orders of the same
/// elements.
pub proof fn lemma_filter_permuted<A>(s1: Seq<A>, s2: Seq<A>, pred: spec_fn(A) -> bool)
    requires
        s1.to_multiset() == s2.to_multiset(),
    ensures
        s1.filter(pred).to_multiset() == s2.filter(pred).to_multiset(),
{
    assert forall|x: A|
        s1.filter(pred).to_multiset().count(x) == s2.filter(pred).to_multiset().count(x) by {
        lemma_filter_count(s1, pred, x);
        lemma_filter_count(s2, pred, x);
    }
    assert(s1.filter(pred).to_multiset() =~= s2.filter(pred).to_multiset());
}

/// Mapping two orders of the same elements gives two orders of the same
/// elements.
pub proof fn lemma_map_permuted<A, B>(s1: Seq<A>, s2: Seq<A>, f: spec_fn(A) -> B)
    requires
        s1.to_multiset() == s2.to_multiset(),
    ensures
        s1.map_values(f).to_multiset() == s2.map_values(f).to_multiset(),
    decreases s1.len(),
{
    broadcast use vstd::seq_lib::group_to_multiset_ensures;
    broadcast use vstd::multiset::group_multiset_axioms;

    vstd::seq_lib::to_multiset_len(s1);
    vstd::seq_lib::to_multiset_len(s2);
    if s1.len() == 0 {
        assert(s1.map_values(f) =~= s2.map_values(f));
    } else {
        let x = s1.last();
        let front = s1.drop_last();
        assert(s1 =~= front.push(x));
        assert(s1.to_multiset().count(x) > 0);
        assert(s2.contains(x));
        let i = choose|i: int| 0 <= i < s2.len() && s2[i] == x;
        let rest = s2.remove(i);
        assert(front.to_multiset() =~= rest.to_multiset());
        lemma_map_permuted(front, rest, f);
        assert(s1.map_values(f) =~= front.map_values(f).push(f(x)));
        assert(rest.len() == s2.len() - 1);
        assert(s2.map_values(f) =~= rest.map_values(f).insert(i, f(x)));
    }
}

/// Two sequences without repetition that hold the same elements are orders
/// of the same elements.
pub proof fn lemma_distinct_permuted<A>(s1: Seq<A>, s2: Seq<A>)
    requires
        s1.no_duplicates(),
        s2.no_duplicates(),
        forall|x: A| s1.contains(x) <==> s2.contains(x),
    ensures
        s1.to_multiset() == s2.to_multiset(),
{
    broadcast use vstd::seq_lib::group_to_multiset_ensures;
    broadcast use vstd::multiset::group_multiset_axioms;

    s1.lemma_multiset_has_no_duplicates();
    s2.lemma_multiset_has_no_duplicates();
    assert forall|x: A| s1.to_multiset().count(x) == s2.to_multiset().count(x) by {
        assert(s1.contains(x) <==> s2.contains(x));
    }
    assert(s1.to_multiset() =~= s2.to_multiset());
}

/// Orders of the same elements hold the same elements.
pub proof fn lemma_permuted_contains<A>(s1: Seq<A>, s2: Seq<A>, x: A)
    requires
        s1.to_multiset() == s2.to_multiset(),
    ensures
        s1.contains(x) <==> s2.contains(x),
        s1.len() == s2.len(),
{
    vstd::seq_lib::to_multiset_len(s1);
    vstd::seq_lib::to_multiset_len(s2);
    vstd::seq_lib::to_multiset_contains(s1, x);
    vstd::seq_lib::to_multiset_contains(s2, x);
}

/// Two orders of the same elements that both ascend by a key are one and the
/// same, provided that no two different elements have keys that tie.
pub proof fn lemma_ascending_unique<A>(
    s1: Seq<A>,
    s2: Seq<A>,
    not_after: spec_fn(A, A) -> bool,
)
    requires
        s1.to_multiset() == s2.to_multiset(),
        forall|i: int, j: int| 0 <= i < j < s1.len() ==> not_after(s1[i], s1[j]),
        forall|i: int, j: int| 0 <= i < j < s2.len() ==> not_after(s2[i], s2[j]),
        forall|i: int, j: int|
            0 <= i < s1.len() && 0 <= j < s1.len() && s1[i] != s1[j] ==> !(not_after(s1[i], s1[j])
                && not_after(s1[j], s1[i])),
    ensures
        s1 == s2,
    decreases s1.len(),
{
    broadcast use vstd::seq_lib::group_to_multiset_ensures;
    broadcast use vstd::multiset::group_multiset_axioms;

    vstd::seq_lib::to_multiset_len(s1);
    vstd::seq_lib::to_multiset_len(s2);
    if s1.len() == 0 {
        assert(s1 =~= s2);
    } else {
        let x = s1.last();
        let y = s2.last();
        let n = s1.len() as int;
        assert(s1.to_multiset().count(x) > 0 && s2.to_multiset().count(y) > 0) by {
            assert(s1.contains(x));
            assert(s2.contains(y));
        }
        assert(s1.contains(y));
        assert(s2.contains(x));
        let j = choose|j: int| 0 <= j < s1.len() && s1[j] == y;
        let i = choose|i: int| 0 <= i < s2.len() && s2[i] == x;
        if x != y {
            assert(j < n - 1 && i < n - 1);
            assert(not_after(s1[j], s1[n - 1]));
            assert(not_after(s2[i], s2[n - 1]));
            assert(false);
        }
        let f1 = s1.drop_last();
        let f2 = s2.drop_last();
        assert(f1 =~= s1.remove(n - 1));
        assert(f2 =~= s2.remove(n - 1));
        assert(f1.to_multiset() =~= f2.to_multiset());
        assert forall|a: int, b: int| 0 <= a < b < f1.len() implies not_after(f1[a], f1[b]) by {
            assert(f1[a] == s1[a] && f1[b] == s1[b]);
        }
        assert forall|a: int, b: int| 0 <= a < b < f2.len() implies not_after(f2[a], f2[b]) by {
            assert(f2[a] == s2[a] && f2[b] == s2[b]);
        }
        assert forall|a: int, b: int|
            0 <= a < f1.len() && 0 <= b < f1.len() && f1[a] != f1[b] implies !(not_after(
            f1[a],
            f1[b],
        ) && not_after(f1[b], f1[a])) by {
            assert(f1[a] == s1[a] && f1[b] == s1[b]);
        }
        lemma_ascending_unique(f1, f2, not_after);
        assert(s1 =~= f1.push(x));
        assert(s2 =~= f2.push(y));
    }
}

} // verus!
