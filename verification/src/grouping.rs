//! What rebuilding guarantees of its aggregates: which vendors appear, what
//! each one holds, and that the order of the rows matters only where the rows
//! say so themselves.

use vstd::prelude::*;
use vstd::multiset::Multiset;
use crate::aggregate::{
    aggregate_for, aggregated, grouped, lemma_aggregate_id, lemma_grouped_push, lemma_slot,
    lemma_vendor_ids_distinct, lemma_vendor_listed, ranked, rows_of, slot, vendor_ids,
};
use crate::distance::{not_after, ties};
use crate::dto::{offering_of, vendor_of, Aggregate, Offering, Row};
use crate::permutation::{
    lemma_ascending_unique, lemma_distinct_permuted, lemma_filter_permuted, lemma_map_permuted,
    lemma_permuted_contains,
};
use crate::ranking::{ascends, lemma_ranked_ascends, lemma_ranked_permutes};

verus! {

/// No rows, no aggregates.
pub proof fn lemma_aggregated_empty()
    ensures
        aggregated(Seq::<Row>::empty()) == Seq::<Aggregate>::empty(),
{
    assert(grouped(Seq::<Row>::empty()) =~= Seq::<Aggregate>::empty());
}

proof fn lemma_filter_all<A>(s: Seq<A>, pred: spec_fn(A) -> bool)
    requires
        forall|k: int| 0 <= k < s.len() ==> pred(#[trigger] s[k]),
    ensures
        s.filter(pred) == s,
    decreases s.len(),
{
    if s.len() == 0 {
        s.lemma_filter_len(pred);
        assert(s.filter(pred) =~= s);
    } else {
        let front = s.drop_last();
        assert forall|k: int| 0 <= k < front.len() implies pred(#[trigger] front[k]) by {
            assert(front[k] == s[k]);
        }
        lemma_filter_all(front, pred);
        front.lemma_filter_push(s.last(), pred);
        assert(s =~= front.push(s.last()));
    }
}

proof fn lemma_single_vendor_ids(rows: Seq<Row>, vendor: u128)
    requires
        rows.len() > 0,
        forall|k: int| 0 <= k < rows.len() ==> (#[trigger] rows[k]).id == vendor,
    ensures
        vendor_ids(rows) == seq![vendor],
    decreases rows.len(),
{
    let front = rows.drop_last();
    assert(rows.last() == rows[rows.len() - 1]);
    if front.len() == 0 {
        assert(vendor_ids(front) =~= Seq::<u128>::empty());
        assert(vendor_ids(rows) =~= seq![vendor]);
    } else {
        assert forall|k: int| 0 <= k < front.len() implies (#[trigger] front[k]).id
            == vendor by {
            assert(front[k] == rows[k]);
        }
        lemma_single_vendor_ids(front, vendor);
        assert(seq![vendor][0] == vendor);
    }
}

/// The rows of one vendor rebuild exactly one aggregate: the vendor of the
/// first row with one offering per row, in the order of the rows. Each
/// offering refers to the vendor that its row names for it: to this vendor,
/// where the rows name their own vendor.
pub proof fn lemma_single_vendor(rows: Seq<Row>, vendor: u128)
    requires
        rows.len() > 0,
        forall|k: int| 0 <= k < rows.len() ==> (#[trigger] rows[k]).id == vendor,
    ensures
        aggregated(rows) == seq![
            vendor_of(rows.first(), rows.map_values(|row: Row| offering_of(row))),
        ],
        aggregated(rows).len() == 1,
        aggregated(rows)[0].id == vendor,
        aggregated(rows)[0].commodities.len() == rows.len(),
        forall|k: int|
            0 <= k < rows.len() ==> #[trigger] aggregated(rows)[0].commodities[k] == offering_of(
                rows[k],
            ),
        (forall|k: int| 0 <= k < rows.len() ==> (#[trigger] rows[k]).station_id == vendor)
            ==> forall|k: int|
            0 <= k < rows.len() ==> (#[trigger] aggregated(rows)[0].commodities[k]).station_id
                == vendor,
{
    lemma_single_vendor_ids(rows, vendor);
    lemma_filter_all(rows, |row: Row| row.id == vendor);
    let only = aggregate_for(rows, vendor);
    assert(grouped(rows) =~= seq![only]);
    assert(grouped(rows).drop_last() =~= Seq::<Aggregate>::empty());
    assert(ranked(grouped(rows).drop_last()) =~= Seq::<Aggregate>::empty());
    assert(slot(Seq::<Aggregate>::empty(), only) == 0);
    assert(aggregated(rows) =~= seq![only]);
    if forall|k: int| 0 <= k < rows.len() ==> (#[trigger] rows[k]).station_id == vendor {
        assert forall|k: int| 0 <= k < rows.len() implies (
        #[trigger] aggregated(rows)[0].commodities[k]).station_id == vendor by {
            assert(aggregated(rows)[0].commodities[k] == offering_of(rows[k]));
        }
    }
}

/// Whether every row names its own vendor as the vendor of its offering.
pub open spec fn refers_back(rows: Seq<Row>) -> bool {
    forall|k: int| 0 <= k < rows.len() ==> (#[trigger] rows[k]).station_id == rows[k].id
}

proof fn lemma_rows_of_refer_back(rows: Seq<Row>, vendor: u128, j: int)
    requires
        refers_back(rows),
        0 <= j < rows_of(rows, vendor).len(),
    ensures
        rows_of(rows, vendor)[j].station_id == vendor,
        rows_of(rows, vendor)[j].id == vendor,
{
    let pred = |row: Row| row.id == vendor;
    let own = rows.filter(pred);
    rows.lemma_filter_pred(pred, j);
    if refers_back(rows) {
        assert(own.contains(own[j]));
        rows.lemma_filter_contains_rev(pred, own[j]);
        let k = choose|k: int| 0 <= k < rows.len() && rows[k] == own[j];
        assert(rows[k].station_id == rows[k].id);
    }
}

/// One group per vendor of the rows, under that vendor's id, with the vendor
/// fields of the vendor's first row; it holds the offerings of the vendor's
/// rows, one for each, in their order. Where every row names its own vendor,
/// every offering refers back to the vendor that holds it.
pub proof fn lemma_grouped_shape(rows: Seq<Row>, k: int)
    requires
        0 <= k < vendor_ids(rows).len(),
    ensures
        grouped(rows).len() == vendor_ids(rows).len(),
        vendor_ids(rows).no_duplicates(),
        grouped(rows)[k].id == vendor_ids(rows)[k],
        grouped(rows)[k] == vendor_of(
            rows_of(rows, vendor_ids(rows)[k]).first(),
            grouped(rows)[k].commodities,
        ),
        grouped(rows)[k].commodities.len() == rows_of(rows, vendor_ids(rows)[k]).len(),
        grouped(rows)[k].commodities.len() > 0,
        forall|j: int|
            0 <= j < grouped(rows)[k].commodities.len() ==> #[trigger] grouped(
                rows,
            )[k].commodities[j] == offering_of(rows_of(rows, vendor_ids(rows)[k])[j]),
        refers_back(rows) ==> forall|j: int|
            0 <= j < grouped(rows)[k].commodities.len() ==> (
            #[trigger] grouped(rows)[k].commodities[j]).station_id == grouped(rows)[k].id,
{
    let vendor = vendor_ids(rows)[k];
    lemma_vendor_ids_distinct(rows);
    lemma_aggregate_id(rows, vendor);
    lemma_vendor_listed(rows, vendor);
    if refers_back(rows) {
        assert forall|j: int| 0 <= j < grouped(rows)[k].commodities.len() implies (
        #[trigger] grouped(rows)[k].commodities[j]).station_id == grouped(rows)[k].id by {
            lemma_rows_of_refer_back(rows, vendor, j);
        }
    }
}

/// Every row is kept: its offering stands in the aggregate of its vendor.
pub proof fn lemma_every_row_kept(rows: Seq<Row>, i: int)
    requires
        0 <= i < rows.len(),
    ensures
        exists|k: int|
            0 <= k < aggregated(rows).len() && (#[trigger] aggregated(rows)[k]).id == rows[i].id
                && aggregated(rows)[k].commodities.contains(offering_of(rows[i])),
{
    let vendor = rows[i].id;
    let pred = |row: Row| row.id == vendor;
    let f = |row: Row| offering_of(row);
    rows.lemma_filter_contains(pred, i);
    let own = rows.filter(pred);
    assert(own.contains(rows[i]));
    let j = choose|j: int| 0 <= j < own.len() && own[j] == rows[i];
    assert(own.map_values(f)[j] == offering_of(rows[i]));
    lemma_vendor_listed(rows, vendor);
    lemma_aggregate_id(rows, vendor);
    let ids = vendor_ids(rows);
    let p = choose|p: int| 0 <= p < ids.len() && ids[p] == vendor;
    let a = grouped(rows)[p];
    assert(a == aggregate_for(rows, vendor));
    assert(grouped(rows).contains(a));
    lemma_ranked_permutes(grouped(rows));
    lemma_permuted_contains(aggregated(rows), grouped(rows), a);
    let k = choose|k: int| 0 <= k < aggregated(rows).len() && aggregated(rows)[k] == a;
    assert(aggregated(rows)[k].commodities.contains(offering_of(rows[i])));
}

/// The vendors that are rebuilt are the vendors of the rows.
pub proof fn lemma_vendors_of_rows(rows: Seq<Row>, vendor: u128)
    ensures
        (exists|k: int| 0 <= k < aggregated(rows).len() && (#[trigger] aggregated(rows)[k]).id
            == vendor) <==> (exists|i: int| 0 <= i < rows.len() && (#[trigger] rows[i]).id
            == vendor),
{
    let pred = |row: Row| row.id == vendor;
    lemma_vendor_listed(rows, vendor);
    if exists|i: int| 0 <= i < rows.len() && (#[trigger] rows[i]).id == vendor {
        let i = choose|i: int| 0 <= i < rows.len() && (#[trigger] rows[i]).id == vendor;
        lemma_every_row_kept(rows, i);
    }
    if exists|k: int| 0 <= k < aggregated(rows).len() && (#[trigger] aggregated(rows)[k]).id
        == vendor {
        let k = choose|k: int| 0 <= k < aggregated(rows).len() && (#[trigger] aggregated(
            rows,
        )[k]).id == vendor;
        let v = lemma_aggregated_member(rows, k);
        let own = rows.filter(pred);
        assert(own.contains(own[0]));
        rows.lemma_filter_contains_rev(pred, own[0]);
        rows.lemma_filter_pred(pred, 0);
        let i = choose|i: int| 0 <= i < rows.len() && rows[i] == own[0];
        assert(rows[i].id == vendor);
    }
}

/// The number of offerings that the aggregates hold, all in all.
pub open spec fn offerings_total(stations: Seq<Aggregate>) -> nat
    decreases stations.len(),
{
    if stations.len() == 0 {
        0
    } else {
        offerings_total(stations.drop_last()) + stations.last().commodities.len()
    }
}

proof fn lemma_total_insert(stations: Seq<Aggregate>, pos: int, a: Aggregate)
    requires
        0 <= pos <= stations.len(),
    ensures
        offerings_total(stations.insert(pos, a)) == offerings_total(stations)
            + a.commodities.len(),
    decreases stations.len(),
{
    let more = stations.insert(pos, a);
    if pos == stations.len() {
        assert(more.drop_last() =~= stations);
    } else {
        assert(more.drop_last() =~= stations.drop_last().insert(pos, a));
        assert(more.last() == stations.last());
        lemma_total_insert(stations.drop_last(), pos, a);
    }
}

proof fn lemma_total_update(stations: Seq<Aggregate>, p: int, a: Aggregate)
    requires
        0 <= p < stations.len(),
    ensures
        offerings_total(stations.update(p, a)) + stations[p].commodities.len()
            == offerings_total(stations) + a.commodities.len(),
    decreases stations.len(),
{
    let changed = stations.update(p, a);
    if p == stations.len() - 1 {
        assert(changed.drop_last() =~= stations.drop_last());
    } else {
        assert(changed.drop_last() =~= stations.drop_last().update(p, a));
        assert(changed.last() == stations.last());
        lemma_total_update(stations.drop_last(), p, a);
    }
}

proof fn lemma_total_ranked(groups: Seq<Aggregate>)
    ensures
        offerings_total(ranked(groups)) == offerings_total(groups),
    decreases groups.len(),
{
    if groups.len() > 0 {
        let front = ranked(groups.drop_last());
        lemma_total_ranked(groups.drop_last());
        lemma_slot(front, groups.last());
        lemma_total_insert(front, slot(front, groups.last()), groups.last());
    }
}

proof fn lemma_total_grouped(rows: Seq<Row>)
    ensures
        offerings_total(grouped(rows)) == rows.len(),
    decreases rows.len(),
{
    if rows.len() == 0 {
        assert(grouped(rows) =~= Seq::<Aggregate>::empty());
    } else {
        let front = rows.drop_last();
        let row = rows.last();
        let groups = grouped(front);
        let ids = vendor_ids(front);
        lemma_total_grouped(front);
        lemma_grouped_push(front, row);
        assert(rows =~= front.push(row));
        if ids.contains(row.id) {
            let p = ids.index_of(row.id);
            assert(0 <= p < ids.len());
            lemma_total_update(groups, p, crate::aggregate::with_offering(groups[p], offering_of(row)));
        } else {
            let opened = vendor_of(row, seq![offering_of(row)]);
            assert(groups.push(opened).drop_last() =~= groups);
        }
    }
}

/// Every row adds exactly one offering: the rebuilt aggregates hold as many
/// offerings as there are rows.
pub proof fn lemma_one_offering_per_row(rows: Seq<Row>)
    ensures
        offerings_total(aggregated(rows)) == rows.len(),
{
    lemma_total_grouped(rows);
    lemma_total_ranked(grouped(rows));
}

/// Ranking keeps every aggregate: the rebuilt aggregates are the groups, in
/// ascending order of distance.
pub proof fn lemma_aggregated_lossless(rows: Seq<Row>)
    ensures
        aggregated(rows).len() == vendor_ids(rows).len(),
        aggregated(rows).to_multiset() == grouped(rows).to_multiset(),
        ascends(aggregated(rows)),
{
    lemma_ranked_permutes(grouped(rows));
    lemma_ranked_ascends(grouped(rows));
}

/// What a vendor holds, without regard to order: its id, and its offerings
/// as a multiset.
pub open spec fn holding(a: Aggregate) -> (u128, Multiset<Offering>) {
    (a.id, a.commodities.to_multiset())
}

/// An aggregate without regard to the order of its offerings: its vendor
/// fields, and its offerings as a multiset.
pub open spec fn summary(a: Aggregate) -> (Aggregate, Multiset<Offering>) {
    (Aggregate { commodities: Seq::empty(), ..a }, a.commodities.to_multiset())
}

/// Whether the rows of each vendor agree on the vendor's fields.
pub open spec fn is_consistent(rows: Seq<Row>) -> bool {
    forall|i: int, j: int|
        0 <= i < rows.len() && 0 <= j < rows.len() && (#[trigger] rows[i]).id == (
        #[trigger] rows[j]).id ==> vendor_of(rows[i], Seq::empty()) == vendor_of(
            rows[j],
            Seq::empty(),
        )
}

/// Whether no two vendors are at distances that tie.
pub open spec fn distances_differ(rows: Seq<Row>) -> bool {
    forall|i: int, j: int|
        0 <= i < rows.len() && 0 <= j < rows.len() && (#[trigger] rows[i]).id != (
        #[trigger] rows[j]).id ==> !ties(rows[i].distance, rows[j].distance)
}

/// The first row of a listed vendor is one of the rows and is the vendor's.
proof fn lemma_first_row(rows: Seq<Row>, vendor: u128) -> (i: int)
    requires
        vendor_ids(rows).contains(vendor),
    ensures
        0 <= i < rows.len(),
        rows[i] == rows_of(rows, vendor).first(),
        rows[i].id == vendor,
{
    let pred = |row: Row| row.id == vendor;
    lemma_vendor_listed(rows, vendor);
    let first = rows_of(rows, vendor).first();
    rows.lemma_filter_pred(pred, 0);
    assert(rows.filter(pred).contains(first));
    rows.lemma_filter_contains_rev(pred, first);
    choose|i: int| 0 <= i < rows.len() && rows[i] == first
}

/// In another order of the rows the same vendors are listed, and each has
/// the same offerings, their order aside.
proof fn lemma_same_offerings(rows: Seq<Row>, other: Seq<Row>, vendor: u128)
    requires
        rows.to_multiset() == other.to_multiset(),
    ensures
        vendor_ids(rows).contains(vendor) <==> vendor_ids(other).contains(vendor),
        vendor_ids(rows).contains(vendor) ==> holding(aggregate_for(rows, vendor)) == holding(
            aggregate_for(other, vendor),
        ),
{
    let pred = |row: Row| row.id == vendor;
    let f = |row: Row| offering_of(row);
    lemma_filter_permuted(rows, other, pred);
    lemma_permuted_contains(rows.filter(pred), other.filter(pred), arbitrary());
    lemma_vendor_listed(rows, vendor);
    lemma_vendor_listed(other, vendor);
    if vendor_ids(rows).contains(vendor) {
        lemma_map_permuted(rows.filter(pred), other.filter(pred), f);
        lemma_aggregate_id(rows, vendor);
        lemma_aggregate_id(other, vendor);
    }
}

/// In another order of consistent rows every vendor has the same summary.
proof fn lemma_same_summary(rows: Seq<Row>, other: Seq<Row>, vendor: u128)
    requires
        rows.to_multiset() == other.to_multiset(),
        is_consistent(rows),
        vendor_ids(rows).contains(vendor),
    ensures
        summary(aggregate_for(rows, vendor)) == summary(aggregate_for(other, vendor)),
{
    lemma_same_offerings(rows, other, vendor);
    let i = lemma_first_row(rows, vendor);
    let j = lemma_first_row(other, vendor);
    lemma_permuted_contains(rows, other, other[j]);
    assert(other.contains(other[j]));
    let k = choose|k: int| 0 <= k < rows.len() && rows[k] == other[j];
    assert(vendor_of(rows[i], Seq::empty()) == vendor_of(rows[k], Seq::empty()));
}

/// What all vendors agree on in two orders of the same rows, the rebuilt
/// aggregates of the two orders agree on, their order aside.
proof fn lemma_aspect_permuted<T>(rows: Seq<Row>, other: Seq<Row>, aspect: spec_fn(Aggregate) -> T)
    requires
        rows.to_multiset() == other.to_multiset(),
        forall|v: u128| #[trigger]
            vendor_ids(rows).contains(v) ==> aspect(aggregate_for(rows, v)) == aspect(
                aggregate_for(other, v),
            ),
    ensures
        aggregated(rows).map_values(aspect).to_multiset() == aggregated(other).map_values(
            aspect,
        ).to_multiset(),
{
    let ids1 = vendor_ids(rows);
    let ids2 = vendor_ids(other);
    lemma_vendor_ids_distinct(rows);
    lemma_vendor_ids_distinct(other);
    assert forall|v: u128| ids1.contains(v) <==> ids2.contains(v) by {
        lemma_same_offerings(rows, other, v);
    }
    lemma_distinct_permuted(ids1, ids2);
    let g1 = |v: u128| aspect(aggregate_for(rows, v));
    let g2 = |v: u128| aspect(aggregate_for(other, v));
    lemma_map_permuted(ids1, ids2, g1);
    assert(ids2.map_values(g1) =~= ids2.map_values(g2)) by {
        assert forall|k: int| 0 <= k < ids2.len() implies ids2.map_values(g1)[k]
            == ids2.map_values(g2)[k] by {
            assert(ids2.contains(ids2[k]));
            assert(ids1.contains(ids2[k]));
        }
    }
    assert(grouped(rows).map_values(aspect) =~= ids1.map_values(g1));
    assert(grouped(other).map_values(aspect) =~= ids2.map_values(g2));
    lemma_ranked_permutes(grouped(rows));
    lemma_ranked_permutes(grouped(other));
    lemma_map_permuted(aggregated(rows), grouped(rows), aspect);
    lemma_map_permuted(aggregated(other), grouped(other), aspect);
}

/// The order of the rows does not change which vendors are rebuilt nor what
/// each one offers: two orders of the same rows rebuild the same vendors
/// with, offering order aside, the same offerings.
pub proof fn lemma_offerings_order_independent(rows: Seq<Row>, other: Seq<Row>)
    requires
        rows.to_multiset() == other.to_multiset(),
    ensures
        aggregated(rows).map_values(|a: Aggregate| holding(a)).to_multiset() == aggregated(
            other,
        ).map_values(|a: Aggregate| holding(a)).to_multiset(),
{
    assert forall|v: u128| #[trigger]
        vendor_ids(rows).contains(v) implies holding(aggregate_for(rows, v)) == holding(
        aggregate_for(other, v),
    ) by {
        lemma_same_offerings(rows, other, v);
    }
    lemma_aspect_permuted(rows, other, |a: Aggregate| holding(a));
}

/// The order of the rows does not change which aggregates are rebuilt: for two
/// orders of the same rows, which agree on each vendor's fields, the rebuilt aggregates are, offering order aside, the same
/// vendors with the same offerings.
pub proof fn lemma_order_independent(rows: Seq<Row>, other: Seq<Row>)
    requires
        rows.to_multiset() == other.to_multiset(),
        is_consistent(rows),
    ensures
        aggregated(rows).map_values(|a: Aggregate| summary(a)).to_multiset() == aggregated(
            other,
        ).map_values(|a: Aggregate| summary(a)).to_multiset(),
{
    assert forall|v: u128| #[trigger]
        vendor_ids(rows).contains(v) implies summary(aggregate_for(rows, v)) == summary(
        aggregate_for(other, v),
    ) by {
        lemma_same_summary(rows, other, v);
    }
    lemma_aspect_permuted(rows, other, |a: Aggregate| summary(a));
}

/// Every rebuilt aggregate is the aggregate of a vendor of the rows.
proof fn lemma_aggregated_member(rows: Seq<Row>, k: int) -> (vendor: u128)
    requires
        0 <= k < aggregated(rows).len(),
    ensures
        vendor_ids(rows).contains(vendor),
        aggregated(rows)[k] == aggregate_for(rows, vendor),
        aggregated(rows)[k].id == vendor,
{
    lemma_ranked_permutes(grouped(rows));
    let a = aggregated(rows)[k];
    assert(aggregated(rows).contains(a));
    lemma_permuted_contains(aggregated(rows), grouped(rows), a);
    let i = choose|i: int| 0 <= i < grouped(rows).len() && grouped(rows)[i] == a;
    assert(vendor_ids(rows).contains(vendor_ids(rows)[i]));
    lemma_aggregate_id(rows, vendor_ids(rows)[i]);
    vendor_ids(rows)[i]
}

/// Each rebuilt aggregate is that of a vendor of the rows: it has the vendor
/// fields of the vendor's first row and holds the offerings of the vendor's
/// rows, one for each, in their order. Where every row names its own vendor,
/// every offering refers back to the vendor that holds it.
pub proof fn lemma_aggregated_shape(rows: Seq<Row>, k: int)
    requires
        0 <= k < aggregated(rows).len(),
    ensures
        vendor_ids(rows).contains(aggregated(rows)[k].id),
        aggregated(rows)[k] == aggregate_for(rows, aggregated(rows)[k].id),
        aggregated(rows)[k].commodities.len() == rows_of(rows, aggregated(rows)[k].id).len(),
        aggregated(rows)[k].commodities.len() > 0,
        forall|j: int|
            0 <= j < aggregated(rows)[k].commodities.len() ==> #[trigger] aggregated(
                rows,
            )[k].commodities[j] == offering_of(rows_of(rows, aggregated(rows)[k].id)[j]),
        refers_back(rows) ==> forall|j: int|
            0 <= j < aggregated(rows)[k].commodities.len() ==> (
            #[trigger] aggregated(rows)[k].commodities[j]).station_id == aggregated(rows)[k].id,
{
    let vendor = lemma_aggregated_member(rows, k);
    lemma_vendor_listed(rows, vendor);
    if refers_back(rows) {
        assert forall|j: int| 0 <= j < aggregated(rows)[k].commodities.len() implies (
        #[trigger] aggregated(rows)[k].commodities[j]).station_id == aggregated(rows)[k].id by {
            lemma_rows_of_refer_back(rows, vendor, j);
        }
    }
}

/// No vendor is rebuilt twice, and every vendor of the rows is rebuilt.
pub proof fn lemma_aggregated_vendors(rows: Seq<Row>)
    ensures
        aggregated(rows).map_values(|a: Aggregate| a.id).no_duplicates(),
        aggregated(rows).map_values(|a: Aggregate| a.id).to_multiset() == vendor_ids(
            rows,
        ).to_multiset(),
{
    let id_of = |a: Aggregate| a.id;
    let ids = vendor_ids(rows);
    lemma_ranked_permutes(grouped(rows));
    lemma_map_permuted(aggregated(rows), grouped(rows), id_of);
    assert(grouped(rows).map_values(id_of) =~= ids) by {
        assert forall|k: int| 0 <= k < ids.len() implies grouped(rows).map_values(id_of)[k]
            == ids[k] by {
            assert(ids.contains(ids[k]));
            lemma_aggregate_id(rows, ids[k]);
        }
    }
    lemma_vendor_ids_distinct(rows);
    ids.lemma_multiset_has_no_duplicates();
    aggregated(rows).map_values(id_of).lemma_multiset_has_no_duplicates_conv();
}

/// Where no two vendors are at distances that tie, the order of the rows does
/// not change the order of the rebuilt aggregates either: two orders of the
/// same consistent rows rebuild, offering order aside, the same sequence.
pub proof fn lemma_ranking_order_independent(rows: Seq<Row>, other: Seq<Row>)
    requires
        rows.to_multiset() == other.to_multiset(),
        is_consistent(rows),
        distances_differ(rows),
    ensures
        aggregated(rows).map_values(|a: Aggregate| summary(a)) == aggregated(other).map_values(
            |a: Aggregate| summary(a),
        ),
{
    let s = |a: Aggregate| summary(a);
    let s1 = aggregated(rows).map_values(s);
    let s2 = aggregated(other).map_values(s);
    let order = |x: (Aggregate, Multiset<Offering>), y: (Aggregate, Multiset<Offering>)|
        not_after(x.0.distance, y.0.distance);
    lemma_order_independent(rows, other);
    lemma_ranked_ascends(grouped(rows));
    lemma_ranked_ascends(grouped(other));
    assert forall|i: int, j: int| 0 <= i < j < s1.len() implies order(s1[i], s1[j]) by {
        assert(not_after(aggregated(rows)[i].distance, aggregated(rows)[j].distance));
    }
    assert forall|i: int, j: int| 0 <= i < j < s2.len() implies order(s2[i], s2[j]) by {
        assert(not_after(aggregated(other)[i].distance, aggregated(other)[j].distance));
    }
    assert forall|i: int, j: int|
        0 <= i < s1.len() && 0 <= j < s1.len() && s1[i] != s1[j] implies !(order(s1[i], s1[j])
        && order(s1[j], s1[i])) by {
        let v = lemma_aggregated_member(rows, i);
        let w = lemma_aggregated_member(rows, j);
        let a = lemma_first_row(rows, v);
        let b = lemma_first_row(rows, w);
        assert(v != w);
        assert(s1[i].0.distance == rows[a].distance);
        assert(s1[j].0.distance == rows[b].distance);
    }
    lemma_ascending_unique(s1, s2, order);
}

} // verus!
