//! What ranking by distance guarantees: the ranked aggregates are the given
//! ones, they ascend by distance, and those that tie keep their order.

use vstd::prelude::*;
use crate::aggregate::{lemma_slot, ranked, slot};
use crate::distance::{not_after, ties};
use crate::dto::Aggregate;

verus! {

/// Whether no aggregate comes after one that follows it.
pub open spec fn ascends(stations: Seq<Aggregate>) -> bool {
    forall|i: int, j: int|
        0 <= i < j < stations.len() ==> not_after(
            (#[trigger] stations[i]).distance,
            (#[trigger] stations[j]).distance,
        )
}

/// The aggregates that tie with the distance, in their order.
pub open spec fn tying(stations: Seq<Aggregate>, distance: Option<u64>) -> Seq<Aggregate> {
    stations.filter(|a: Aggregate| ties(a.distance, distance))
}

/// Ranking neither adds nor drops an aggregate.
pub proof fn lemma_ranked_permutes(groups: Seq<Aggregate>)
    ensures
        ranked(groups).len() == groups.len(),
        ranked(groups).to_multiset() == groups.to_multiset(),
    decreases groups.len(),
{
    broadcast use vstd::seq_lib::group_to_multiset_ensures;

    if groups.len() == 0 {
        assert(ranked(groups) =~= groups);
    } else {
        let front = groups.drop_last();
        let a = groups.last();
        lemma_ranked_permutes(front);
        lemma_slot(ranked(front), a);
        assert(groups =~= front.push(a));
        assert(ranked(groups).to_multiset() =~= groups.to_multiset());
    }
}

/// Ranked aggregates ascend by distance.
pub proof fn lemma_ranked_ascends(groups: Seq<Aggregate>)
    ensures
        ascends(ranked(groups)),
    decreases groups.len(),
{
    if groups.len() > 0 {
        let front = ranked(groups.drop_last());
        let a = groups.last();
        lemma_ranked_ascends(groups.drop_last());
        lemma_slot(front, a);
        let pos = slot(front, a);
        let out = front.insert(pos, a);
        assert forall|i: int, j: int| 0 <= i < j < out.len() implies not_after(
            (#[trigger] out[i]).distance,
            (#[trigger] out[j]).distance,
        ) by {
            if j < pos {
                assert(out[i] == front[i] && out[j] == front[j]);
            } else if j == pos {
                assert(out[i] == front[i]);
                if i < pos - 1 {
                    assert(not_after(front[i].distance, front[pos - 1].distance));
                }
            } else if i < pos {
                assert(out[i] == front[i] && out[j] == front[j - 1]);
            } else if i == pos {
                assert(out[j] == front[j - 1]);
            } else {
                assert(out[i] == front[i - 1] && out[j] == front[j - 1]);
            }
        }
    }
}

/// Ranking keeps the order of aggregates that tie: those that tie with any
/// one distance stand in the ranked sequence as they stood in the given one.
pub proof fn lemma_ranked_stable(groups: Seq<Aggregate>, distance: Option<u64>)
    ensures
        tying(ranked(groups), distance) == tying(groups, distance),
    decreases groups.len(),
{
    let pred = |a: Aggregate| ties(a.distance, distance);
    if groups.len() == 0 {
        assert(ranked(groups) =~= groups);
    } else {
        let given = groups.drop_last();
        let a = groups.last();
        let front = ranked(given);
        lemma_ranked_stable(given, distance);
        lemma_slot(front, a);
        let pos = slot(front, a);
        let head = front.take(pos);
        let tail = front.skip(pos);
        assert(front =~= head + tail);
        assert(front.insert(pos, a) =~= head.push(a) + tail);
        Seq::filter_distributes_over_add(head, tail, pred);
        Seq::filter_distributes_over_add(head.push(a), tail, pred);
        head.lemma_filter_push(a, pred);
        assert(groups =~= given.push(a));
        given.lemma_filter_push(a, pred);
        if pred(a) {
            assert(tail.filter(pred).len() == 0) by {
                if tail.filter(pred).len() > 0 {
                    tail.lemma_filter_pred(pred, 0);
                    let x = tail.filter(pred)[0];
                    assert(tail.filter(pred).contains(x));
                    tail.lemma_filter_contains_rev(pred, x);
                    let k = choose|k: int| 0 <= k < tail.len() && tail[k] == x;
                    assert(tail[k] == front[pos + k]);
                }
            }
            assert(tail.filter(pred) =~= Seq::empty());
            assert(head.push(a).filter(pred) + tail.filter(pred) =~= head.filter(pred).push(a));
            assert(head.filter(pred) + tail.filter(pred) =~= head.filter(pred));
        }
    }
}

} // verus!
