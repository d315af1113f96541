//! Flat join rows, the vendor aggregates rebuilt from them, and their
//! mathematical models.
//!
//! Identifiers are 128-bit integers, timestamps are microseconds since the
//! Unix epoch, and coordinates and distances are the bits of IEEE 754 doubles
//! (see `crate::distance` for how distances are ordered).

use vstd::prelude::*;
use crate::commodity::Commodity;
use crate::stations::station::Station;

verus! {

/// Credentials presented at sign-in.
#[derive(Debug, Clone, PartialEq)]
pub struct StationSigninDto {
    pub email: String,
    pub password: String,
}

/// What a vendor submits to register.
#[derive(Debug, Clone, PartialEq)]
pub struct CreateStationDto {
    pub name: String,
    pub address: String,
    pub email: String,
    pub phone: String,
    pub password: String,
    pub latitude: u64,
    pub longitude: u64,
    pub code: String,
}

/// One row of the vendor-commodity join: every vendor field, every commodity
/// field, and the distance from the query point where one was computed.
#[derive(Debug, Clone, PartialEq)]
pub struct StationWithCommodity {
    pub id: u128,
    pub name: String,
    pub address: String,
    pub email: String,
    pub password: String,
    pub phone: String,
    pub latitude: u64,
    pub longitude: u64,
    pub role: String,
    pub created_at: i64,
    pub updated_at: i64,
    pub distance: Option<u64>,
    pub commodity_id: u128,
    pub commodity_name: String,
    pub is_available: bool,
    pub price: i32,
    pub station_id: u128,
}

/// One commodity on offer at a vendor.
#[derive(Debug, Clone, PartialEq)]
pub struct CommoditiesResponse {
    pub id: u128,
    pub name: String,
    pub is_available: bool,
    pub price: i32,
    pub station_id: u128,
}

/// A vendor with the commodities it offers.
#[derive(Debug, Clone, PartialEq)]
pub struct StationResponse {
    pub id: u128,
    pub name: String,
    pub address: String,
    pub email: String,
    pub phone: String,
    pub latitude: u64,
    pub longitude: u64,
    pub role: String,
    pub created_at: i64,
    pub updated_at: i64,
    pub distance: Option<u64>,
    pub commodities: Vec<CommoditiesResponse>,
}

/// Model of a join row.
pub ghost struct Row {
    pub id: u128,
    pub name: Seq<char>,
    pub address: Seq<char>,
    pub email: Seq<char>,
    pub password: Seq<char>,
    pub phone: Seq<char>,
    pub latitude: u64,
    pub longitude: u64,
    pub role: Seq<char>,
    pub created_at: i64,
    pub updated_at: i64,
    pub distance: Option<u64>,
    pub commodity_id: u128,
    pub commodity_name: Seq<char>,
    pub is_available: bool,
    pub price: i32,
    pub station_id: u128,
}

/// Model of an offering.
pub ghost struct Offering {
    pub id: u128,
    pub name: Seq<char>,
    pub is_available: bool,
    pub price: i32,
    pub station_id: u128,
}

/// Model of a vendor aggregate.
pub ghost struct Aggregate {
    pub id: u128,
    pub name: Seq<char>,
    pub address: Seq<char>,
    pub email: Seq<char>,
    pub phone: Seq<char>,
    pub latitude: u64,
    pub longitude: u64,
    pub role: Seq<char>,
    pub created_at: i64,
    pub updated_at: i64,
    pub distance: Option<u64>,
    pub commodities: Seq<Offering>,
}

impl View for StationWithCommodity {
    type V = Row;

    open spec fn view(&self) -> Row {
        Row {
            id: self.id,
            name: self.name@,
            address: self.address@,
            email: self.email@,
            password: self.password@,
            phone: self.phone@,
            latitude: self.latitude,
            longitude: self.longitude,
            role: self.role@,
            created_at: self.created_at,
            updated_at: self.updated_at,
            distance: self.distance,
            commodity_id: self.commodity_id,
            commodity_name: self.commodity_name@,
            is_available: self.is_available,
            price: self.price,
            station_id: self.station_id,
        }
    }
}

impl DeepView for StationWithCommodity {
    type V = Row;

    open spec fn deep_view(&self) -> Row {
        self@
    }
}

impl View for CommoditiesResponse {
    type V = Offering;

    open spec fn view(&self) -> Offering {
        Offering {
            id: self.id,
            name: self.name@,
            is_available: self.is_available,
            price: self.price,
            station_id: self.station_id,
        }
    }
}

impl DeepView for CommoditiesResponse {
    type V = Offering;

    open spec fn deep_view(&self) -> Offering {
        self@
    }
}

impl View for StationResponse {
    type V = Aggregate;

    open spec fn view(&self) -> Aggregate {
        Aggregate {
            id: self.id,
            name: self.name@,
            address: self.address@,
            email: self.email@,
            phone: self.phone@,
            latitude: self.latitude,
            longitude: self.longitude,
            role: self.role@,
            created_at: self.created_at,
            updated_at: self.updated_at,
            distance: self.distance,
            commodities: self.commodities.deep_view(),
        }
    }
}

impl DeepView for StationResponse {
    type V = Aggregate;

    open spec fn deep_view(&self) -> Aggregate {
        self@
    }
}

/// The offering that a row carries.
pub open spec fn offering_of(row: Row) -> Offering {
    Offering {
        id: row.commodity_id,
        name: row.commodity_name,
        is_available: row.is_available,
        price: row.price,
        station_id: row.station_id,
    }
}

/// The vendor that a row carries, with the given offerings.
pub open spec fn vendor_of(row: Row, commodities: Seq<Offering>) -> Aggregate {
    Aggregate {
        id: row.id,
        name: row.name,
        address: row.address,
        email: row.email,
        phone: row.phone,
        latitude: row.latitude,
        longitude: row.longitude,
        role: row.role,
        created_at: row.created_at,
        updated_at: row.updated_at,
        distance: row.distance,
        commodities,
    }
}

/// The offering that a stored commodity is.
pub open spec fn offering_of_commodity(commodity: Commodity) -> Offering {
    Offering {
        id: commodity.id,
        name: commodity.name@,
        is_available: commodity.is_available,
        price: commodity.price,
        station_id: commodity.station_id,
    }
}

/// The aggregate of a stored vendor at distance zero, with the given
/// offerings.
pub open spec fn vendor_of_station(station: Station, commodities: Seq<Offering>) -> Aggregate {
    Aggregate {
        id: station.id,
        name: station.name@,
        address: station.address@,
        email: station.email@,
        phone: station.phone@,
        latitude: station.latitude,
        longitude: station.longitude,
        role: station.role@,
        created_at: station.created_at,
        updated_at: station.updated_at,
        distance: Some(0u64),
        commodities,
    }
}

impl CommoditiesResponse {
    /// The offering that a stored commodity is.
    pub fn from_commodity(commodity: Commodity) -> (offering: Self)
        ensures
            offering@ == offering_of_commodity(commodity),
    {
        CommoditiesResponse {
            id: commodity.id,
            name: commodity.name,
            is_available: commodity.is_available,
            price: commodity.price,
            station_id: commodity.station_id,
        }
    }

    /// The offering carried by a row.
    pub fn from_row(row: &StationWithCommodity) -> (offering: Self)
        ensures
            offering@ == offering_of(row@),
    {
        CommoditiesResponse {
            id: row.commodity_id,
            name: row.commodity_name.clone(),
            is_available: row.is_available,
            price: row.price,
            station_id: row.station_id,
        }
    }
}

impl StationResponse {
    /// The vendor of the first row with the offerings of all the rows, in
    /// their order. For the rows of one vendor this is the one aggregate that
    /// they rebuild.
    pub fn from(rows: Vec<StationWithCommodity>) -> (station: Self)
        requires
            rows.len() > 0,
        ensures
            station@ == vendor_of(
                rows.deep_view().first(),
                rows.deep_view().map_values(|row: Row| offering_of(row)),
            ),
    {
        let mut station = StationResponse::vendor_from_row(&rows[0]);
        let ghost all = rows.deep_view();
        let mut i: usize = 0;
        assert(all[0] == rows[0]@);
        assert(all.take(0).map_values(|row: Row| offering_of(row)) =~= Seq::empty());
        while i < rows.len()
            invariant
                i <= rows.len(),
                all == rows.deep_view(),
                station@ == vendor_of(
                    all[0],
                    all.take(i as int).map_values(|row: Row| offering_of(row)),
                ),
            decreases rows.len() - i,
        {
            let ghost before = station.commodities.deep_view();
            station.commodities.push(CommoditiesResponse::from_row(&rows[i]));
            assert(all[i as int] == rows[i as int]@);
            assert(station.commodities.deep_view() =~= before.push(offering_of(all[i as int])));
            assert(all.take(i + 1).map_values(|row: Row| offering_of(row)) =~= all.take(
                i as int,
            ).map_values(|row: Row| offering_of(row)).push(offering_of(all[i as int])));
            i += 1;
        }
        assert(all.take(rows.len() as int) =~= all);
        station
    }

    /// A stored vendor as an aggregate: at distance zero and without
    /// offerings.
    pub fn from_station(station: Station) -> (response: Self)
        ensures
            response@ == vendor_of_station(station, Seq::empty()),
    {
        let response = StationResponse {
            id: station.id,
            name: station.name,
            address: station.address,
            email: station.email,
            phone: station.phone,
            latitude: station.latitude,
            longitude: station.longitude,
            role: station.role,
            created_at: station.created_at,
            updated_at: station.updated_at,
            distance: Some(0),
            commodities: Vec::new(),
        };
        assert(response.commodities.deep_view() =~= Seq::empty());
        response
    }

    /// The vendor carried by a row, with no offerings yet.
    pub fn vendor_from_row(row: &StationWithCommodity) -> (station: Self)
        ensures
            station@ == vendor_of(row@, Seq::empty()),
    {
        let station = StationResponse {
            id: row.id,
            name: row.name.clone(),
            address: row.address.clone(),
            email: row.email.clone(),
            phone: row.phone.clone(),
            latitude: row.latitude,
            longitude: row.longitude,
            role: row.role.clone(),
            created_at: row.created_at,
            updated_at: row.updated_at,
            distance: row.distance,
            commodities: Vec::new(),
        };
        assert(station.commodities.deep_view() =~= Seq::empty());
        station
    }
}

} // verus!
