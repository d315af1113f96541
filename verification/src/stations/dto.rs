//! What a proximity query is asked with, and a vendor as the query ranks it.

use vstd::prelude::*;

verus! {

/// The query point of a proximity query, as the request spells it.
#[derive(Debug, Clone, PartialEq)]
pub struct StationQueryParam {
    pub longitude: String,
    pub latitude: String,
}

/// A vendor with its distance from the query point, in kilometres.
#[derive(Debug, Clone, PartialEq)]
pub struct Station {
    pub id: u128,
    pub name: String,
    pub address: String,
    pub email: String,
    pub phone: String,
    pub latitude: u64,
    pub longitude: u64,
    pub role: String,
    pub created_at: i64,
    pub updated_at: i64,
    pub distance_km: Option<u64>,
}

} // verus!
