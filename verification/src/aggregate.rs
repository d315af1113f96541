//! Rebuilding vendor aggregates from flat join rows.
//!
//! The rows are grouped by the vendor whose fields they carry, in order of
//! first appearance: every row adds one offering to its vendor, and the first
//! row of a vendor gives the vendor's fields. The reference that an offering
//! holds to its vendor is carried over as the row has it. The groups are then
//! ranked by distance, nearest first, vendors of equal or unknown distance
//! keeping their order of appearance.

use vstd::prelude::*;
use std::collections::HashMap;
use crate::distance::{distance_not_after, not_after};
use crate::errors::StationError;
use crate::dto::{
    offering_of, vendor_of, Aggregate, CommoditiesResponse, Offering, Row, StationResponse,
    StationWithCommodity,
};

verus! {

/// The rows of one vendor, in input order.
pub open spec fn rows_of(rows: Seq<Row>, vendor: u128) -> Seq<Row> {
    rows.filter(|row: Row| row.id == vendor)
}

/// The distinct vendors of the rows, in order of first appearance.
pub open spec fn vendor_ids(rows: Seq<Row>) -> Seq<u128>
    decreases rows.len(),
{
    if rows.len() == 0 {
        Seq::empty()
    } else {
        let before = vendor_ids(rows.drop_last());
        let row = rows.last();
        if !before.contains(row.id) {
            before.push(row.id)
        } else {
            before
        }
    }
}

/// The aggregate of one vendor: its vendor fields from its first row, and one
/// offering for each of its rows, in input order.
pub open spec fn aggregate_for(rows: Seq<Row>, vendor: u128) -> Aggregate {
    let own = rows_of(rows, vendor);
    vendor_of(own.first(), own.map_values(|row: Row| offering_of(row)))
}

/// The aggregates of all vendors, in order of first appearance.
pub open spec fn grouped(rows: Seq<Row>) -> Seq<Aggregate> {
    vendor_ids(rows).map_values(|vendor: u128| aggregate_for(rows, vendor))
}

/// Where one more aggregate goes into ranked ones: behind the last of them
/// that does not come after it.
pub open spec fn slot(ranked: Seq<Aggregate>, a: Aggregate) -> int
    decreases ranked.len(),
{
    if ranked.len() == 0 {
        0
    } else if not_after(ranked.last().distance, a.distance) {
        ranked.len() as int
    } else {
        slot(ranked.drop_last(), a)
    }
}

/// `ranked` with one more aggregate in its slot.
pub open spec fn insert_ranked(ranked: Seq<Aggregate>, a: Aggregate) -> Seq<Aggregate> {
    ranked.insert(slot(ranked, a), a)
}

/// The aggregates ordered by distance, ties in their given order.
pub open spec fn ranked(groups: Seq<Aggregate>) -> Seq<Aggregate>
    decreases groups.len(),
{
    if groups.len() == 0 {
        Seq::empty()
    } else {
        insert_ranked(ranked(groups.drop_last()), groups.last())
    }
}

/// What `map_rows_to_stations` returns for the rows.
pub open spec fn aggregated(rows: Seq<Row>) -> Seq<Aggregate> {
    ranked(grouped(rows))
}

/// The aggregate with one more offering at the end.
pub open spec fn with_offering(a: Aggregate, offering: Offering) -> Aggregate {
    Aggregate { commodities: a.commodities.push(offering), ..a }
}

proof fn lemma_rows_of_push(rows: Seq<Row>, row: Row, vendor: u128)
    ensures
        rows_of(rows.push(row), vendor) == if row.id == vendor {
            rows_of(rows, vendor).push(row)
        } else {
            rows_of(rows, vendor)
        },
{
    rows.lemma_filter_push(row, |r: Row| r.id == vendor);
}

/// A vendor is listed exactly when it has a row.
pub proof fn lemma_vendor_listed(rows: Seq<Row>, vendor: u128)
    ensures
        vendor_ids(rows).contains(vendor) <==> rows_of(rows, vendor).len() > 0,
    decreases rows.len(),
{
    if rows.len() == 0 {
        assert(rows_of(rows, vendor).len() == 0) by {
            rows.lemma_filter_len(|r: Row| r.id == vendor);
        }
    } else {
        let before = rows.drop_last();
        let row = rows.last();
        assert(rows == before.push(row));
        lemma_vendor_listed(before, vendor);
        lemma_rows_of_push(before, row, vendor);
        let ids = vendor_ids(before);
        if !ids.contains(row.id) {
            assert(ids.push(row.id).last() == row.id);
            if vendor != row.id && ids.contains(vendor) {
                let k = choose|k: int| 0 <= k < ids.len() && ids[k] == vendor;
                assert(ids.push(row.id)[k] == vendor);
            }
            if vendor == row.id {
                assert(ids.push(row.id)[ids.len() as int] == vendor);
            }
        }
    }
}

/// The aggregate of a listed vendor carries that vendor's id.
pub proof fn lemma_aggregate_id(rows: Seq<Row>, vendor: u128)
    requires
        vendor_ids(rows).contains(vendor),
    ensures
        aggregate_for(rows, vendor).id == vendor,
{
    lemma_vendor_listed(rows, vendor);
    rows.lemma_filter_pred(|row: Row| row.id == vendor, 0);
}

/// No vendor is listed twice.
pub proof fn lemma_vendor_ids_distinct(rows: Seq<Row>)
    ensures
        vendor_ids(rows).no_duplicates(),
    decreases rows.len(),
{
    if rows.len() > 0 {
        lemma_vendor_ids_distinct(rows.drop_last());
    }
}

proof fn lemma_vendor_ids_push(rows: Seq<Row>, row: Row)
    ensures
        vendor_ids(rows.push(row)) == if !vendor_ids(rows).contains(row.id) {
            vendor_ids(rows).push(row.id)
        } else {
            vendor_ids(rows)
        },
{
    assert(rows.push(row).drop_last() == rows);
}

/// What one more row does to the groups: it opens the group of a vendor not
/// seen before, or adds its offering to the group of its vendor.
pub proof fn lemma_grouped_push(rows: Seq<Row>, row: Row)
    ensures
        !vendor_ids(rows).contains(row.id) ==> grouped(rows.push(row)) == grouped(rows).push(
            vendor_of(row, seq![offering_of(row)]),
        ),
        vendor_ids(rows).contains(row.id) ==> grouped(rows.push(row)) == grouped(rows).update(
            vendor_ids(rows).index_of(row.id),
            with_offering(grouped(rows)[vendor_ids(rows).index_of(row.id)], offering_of(row)),
        ),
{
    let more = rows.push(row);
    let ids = vendor_ids(rows);
    lemma_vendor_ids_push(rows, row);
    lemma_vendor_ids_distinct(rows);
    assert forall|vendor: u128| vendor != row.id implies aggregate_for(more, vendor)
        == aggregate_for(rows, vendor) by {
        lemma_rows_of_push(rows, row, vendor);
    }
    lemma_rows_of_push(rows, row, row.id);
    lemma_vendor_listed(rows, row.id);
    let own = rows_of(rows, row.id);
    let f = |r: Row| offering_of(r);
    assert(own.push(row).map_values(f) =~= own.map_values(f).push(offering_of(row)));
    if !ids.contains(row.id) {
        assert(own.len() == 0);
        assert(own.push(row).first() == row);
        assert(own.map_values(f) =~= Seq::empty());
        assert(Seq::<Offering>::empty().push(offering_of(row)) =~= seq![offering_of(row)]);
        assert(aggregate_for(more, row.id) == vendor_of(row, seq![offering_of(row)]));
        assert forall|k: int| 0 <= k < ids.len() implies ids[k] != row.id by {}
        assert(grouped(more) =~= grouped(rows).push(vendor_of(row, seq![offering_of(row)])));
    } else {
        let p = ids.index_of(row.id);
        assert(own.push(row).first() == own.first());
        assert(aggregate_for(more, row.id) == with_offering(
            aggregate_for(rows, row.id),
            offering_of(row),
        ));
        assert(grouped(more) =~= grouped(rows).update(
            p,
            with_offering(grouped(rows)[p], offering_of(row)),
        ));
    }
}

/// Whether the index maps each vendor of the groups, and nothing else, to
/// the place of its group.
spec fn indexes(index: Map<u128, usize>, groups: Seq<StationResponse>) -> bool {
    &&& forall|k: int|
        0 <= k < groups.len() ==> index.contains_key(#[trigger] groups[k].id)
            && index[groups[k].id] == k
    &&& forall|id: u128| #[trigger]
        index.contains_key(id) ==> index[id] < groups.len() && groups[index[id] as int].id == id
}

/// Groups the rows by vendor, in order of first appearance.
fn group_rows(rows: &Vec<StationWithCommodity>) -> (groups: Vec<StationResponse>)
    ensures
        groups.deep_view() == grouped(rows.deep_view()),
{
    broadcast use vstd::std_specs::hash::group_hash_axioms;

    let ghost all = rows.deep_view();
    let mut groups: Vec<StationResponse> = Vec::new();
    let mut index: HashMap<u128, usize> = HashMap::new();
    let mut i: usize = 0;
    assert(all.take(0) =~= Seq::empty());
    assert(groups.deep_view() =~= grouped(all.take(0)));
    while i < rows.len()
        invariant
            i <= rows.len(),
            all == rows.deep_view(),
            groups.deep_view() == grouped(all.take(i as int)),
            indexes(index@, groups@),
        decreases rows.len() - i,
    {
        let row = &rows[i];
        let ghost seen = all.take(i as int);
        let ghost before = groups.deep_view();
        let ghost held = groups@;
        proof {
            assert(all.take(i + 1) =~= seen.push(row@));
            lemma_grouped_push(seen, row@);
            lemma_vendor_ids_distinct(seen);
        }
        let ghost ids = vendor_ids(seen);
        assert(groups.len() == ids.len()) by {
            assert(groups.deep_view().len() == groups.len());
        }
        assert forall|k: int| 0 <= k < groups.len() implies groups[k].id == ids[k] by {
            assert(groups.deep_view()[k] == groups[k]@);
            lemma_aggregate_id(seen, ids[k]);
        }
        let offering = CommoditiesResponse::from_row(row);
        match index.get(&row.id) {
            Some(place) => {
                let p = *place;
                assert(ids[p as int] == row.id);
                assert(ids.index_of(row.id) == p as int) by {
                    let q = ids.index_of(row.id);
                    assert(0 <= q < ids.len() && ids[q] == row.id);
                }
                let ghost prior = groups[p as int]@;
                groups[p].commodities.push(offering);
                assert(groups[p as int].commodities.deep_view() =~= prior.commodities.push(
                    offering_of(row@),
                ));
                assert(groups.deep_view() =~= before.update(
                    p as int,
                    with_offering(before[p as int], offering_of(row@)),
                ));
                assert(indexes(index@, groups@)) by {
                    assert forall|k: int| 0 <= k < groups.len() implies groups[k].id
                        == held[k].id by {}
                }
            },
            None => {
                assert(!ids.contains(row.id)) by {
                    if ids.contains(row.id) {
                        let k = choose|k: int| 0 <= k < ids.len() && ids[k] == row.id;
                        assert(index@.contains_key(groups[k].id));
                    }
                }
                let mut station = StationResponse::vendor_from_row(row);
                station.commodities.push(offering);
                assert(station.commodities.deep_view() =~= seq![offering_of(row@)]);
                index.insert(row.id, groups.len());
                groups.push(station);
                assert(groups.deep_view() =~= before.push(
                    vendor_of(row@, seq![offering_of(row@)]),
                ));
                assert(indexes(index@, groups@)) by {
                    assert forall|k: int| 0 <= k < held.len() implies groups[k].id
                        == held[k].id by {}
                }
            },
        }
        i += 1;
    }
    assert(all.take(rows.len() as int) =~= all);
    groups
}

/// The slot is the one place with nothing that comes after the aggregate in
/// front of it and nothing else behind it.
pub proof fn lemma_slot(ranked: Seq<Aggregate>, a: Aggregate)
    ensures
        0 <= slot(ranked, a) <= ranked.len(),
        slot(ranked, a) > 0 ==> not_after(ranked[slot(ranked, a) - 1].distance, a.distance),
        forall|k: int|
            slot(ranked, a) <= k < ranked.len() ==> !not_after(
                (#[trigger] ranked[k]).distance,
                a.distance,
            ),
    decreases ranked.len(),
{
    if ranked.len() > 0 && !not_after(ranked.last().distance, a.distance) {
        let front = ranked.drop_last();
        lemma_slot(front, a);
        assert forall|k: int| slot(ranked, a) <= k < ranked.len() implies !not_after(
            (#[trigger] ranked[k]).distance,
            a.distance,
        ) by {
            if k < front.len() {
                assert(ranked[k] == front[k]);
            }
        }
    }
}

proof fn lemma_slot_found(ranked: Seq<Aggregate>, a: Aggregate, pos: int)
    requires
        0 <= pos <= ranked.len(),
        pos > 0 ==> not_after(ranked[pos - 1].distance, a.distance),
        forall|k: int| pos <= k < ranked.len() ==> !not_after(ranked[k].distance, a.distance),
    ensures
        slot(ranked, a) == pos,
    decreases ranked.len(),
{
    if ranked.len() > 0 && pos < ranked.len() {
        lemma_slot_found(ranked.drop_last(), a, pos);
    }
}

/// Orders the groups by distance, ties in their given order.
fn rank_groups(groups: Vec<StationResponse>) -> (out: Vec<StationResponse>)
    ensures
        out.deep_view() == ranked(groups.deep_view()),
{
    let ghost all = groups.deep_view();
    let mut rest = groups;
    let mut out: Vec<StationResponse> = Vec::new();
    let ghost mut done: int = 0;
    assert(all.take(0) =~= Seq::empty());
    assert(out.deep_view() =~= ranked(all.take(0)));
    assert(rest.deep_view() =~= all.skip(0));
    assert(rest.len() == all.len()) by {
        assert(rest.deep_view().len() == rest.len());
    }
    while rest.len() > 0
        invariant
            0 <= done <= all.len(),
            rest.len() == all.len() - done,
            rest.deep_view() == all.skip(done),
            out.deep_view() == ranked(all.take(done)),
        decreases rest.len(),
    {
        let ghost sorted = out.deep_view();
        let ghost left = rest.deep_view();
        let ghost held = rest@;
        let station = rest.remove(0);
        assert(station@ == all[done]) by {
            assert(left[0] == held[0]@);
            assert(left[0] == all.skip(done)[0]);
        }
        assert(rest.deep_view() =~= all.skip(done + 1)) by {
            assert forall|k: int| 0 <= k < rest.len() implies rest.deep_view()[k] == all.skip(
                done + 1,
            )[k] by {
                assert(rest@[k] == held[k + 1]);
                assert(left[k + 1] == held[k + 1]@);
                assert(left[k + 1] == all.skip(done)[k + 1]);
            }
        }
        let mut pos: usize = out.len();
        while pos > 0 && !distance_not_after(out[pos - 1].distance, station.distance)
            invariant
                pos <= out.len(),
                sorted == out.deep_view(),
                forall|k: int|
                    pos <= k < out.len() ==> !not_after(sorted[k].distance, station.distance),
            decreases pos,
        {
            pos -= 1;
        }
        proof {
            assert(pos > 0 ==> sorted[pos - 1].distance == out[pos - 1].distance);
            lemma_slot_found(sorted, station@, pos as int);
            assert(all.take(done + 1).drop_last() =~= all.take(done));
        }
        out.insert(pos, station);
        assert(out.deep_view() =~= sorted.insert(pos as int, all[done]));
        proof {
            done = done + 1;
        }
    }
    assert(all.take(done) =~= all);
    out
}

/// Rebuilds the vendor aggregates from the rows of a join.
///
/// Each vendor of the rows appears once, with its vendor fields taken from
/// its first row and one offering for each of its rows, in input order. The
/// vendors are ordered by distance, nearest first; vendors of unknown
/// distance come last; vendors that tie keep their order of first
/// appearance.
pub fn map_rows_to_stations(rows: Vec<StationWithCommodity>) -> (stations: Vec<StationResponse>)
    ensures
        stations.deep_view() == aggregated(rows.deep_view()),
{
    let groups = group_rows(&rows);
    if groups.len() == 1 {
        proof {
            let g = groups.deep_view();
            assert(g.len() == 1);
            assert(ranked(g.drop_last()) =~= Seq::<Aggregate>::empty());
            assert(slot(Seq::<Aggregate>::empty(), g.last()) == 0);
            assert(ranked(g) =~= g);
        }
        return groups;
    }
    rank_groups(groups)
}

/// Ranking keeps the number of aggregates.
pub proof fn lemma_ranked_len(groups: Seq<Aggregate>)
    ensures
        ranked(groups).len() == groups.len(),
    decreases groups.len(),
{
    if groups.len() > 0 {
        lemma_ranked_len(groups.drop_last());
        lemma_slot(ranked(groups.drop_last()), groups.last());
    }
}

/// Aggregates are rebuilt exactly when there are rows: one for each vendor of
/// the rows.
pub proof fn lemma_aggregated_len(rows: Seq<Row>)
    ensures
        aggregated(rows).len() == vendor_ids(rows).len(),
        aggregated(rows).len() > 0 <==> rows.len() > 0,
{
    lemma_ranked_len(grouped(rows));
    if rows.len() > 0 {
        let ids = vendor_ids(rows);
        if !vendor_ids(rows.drop_last()).contains(rows.last().id) {
            assert(ids.last() == rows.last().id);
        }
        lemma_vendor_listed(rows, rows.last().id);
        rows.lemma_filter_contains(|row: Row| row.id == rows.last().id, rows.len() - 1);
    }
}

/// The one aggregate that the rows of a single vendor rebuild.
///
/// Fails with `NotFound`, naming `identifier`, when there are no rows.
/// Callers pass the rows of one vendor; should the rows span several, the
/// first in rank is returned.
pub fn aggregate_single(rows: Vec<StationWithCommodity>, identifier: String) -> (found: Result<
    StationResponse,
    StationError,
>)
    ensures
        rows.len() == 0 ==> (found matches Err(StationError::NotFound(who)) && who@
            == identifier@),
        rows.len() > 0 ==> (found matches Ok(station) && aggregated(rows.deep_view()).len() > 0
            && station@ == aggregated(rows.deep_view())[0]),
{
    proof {
        lemma_aggregated_len(rows.deep_view());
        assert(rows.deep_view().len() == rows.len());
    }
    let mut stations = map_rows_to_stations(rows);
    assert(stations.deep_view().len() == stations.len());
    if stations.len() == 0 {
        Err(StationError::NotFound(identifier))
    } else {
        assert(stations.deep_view()[0] == stations[0]@);
        Ok(stations.swap_remove(0))
    }
}

} // verus!
