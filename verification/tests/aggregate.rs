use station_locator::aggregate::{aggregate_single, map_rows_to_stations};
use station_locator::dto::{
    CommoditiesResponse, StationResponse, StationWithCommodity,
};
use station_locator::errors::StationError;
use station_locator::stations::station::Station;

const V1: u128 = 0x11111111_1111_1111_1111_111111111111;
const V2: u128 = 0x22222222_2222_2222_2222_222222222222;
const V3: u128 = 0x33333333_3333_3333_3333_333333333333;
const C1: u128 = 0xc1;
const C2: u128 = 0xc2;
const C3: u128 = 0xc3;
const C4: u128 = 0xc4;

fn bits(distance: Option<f64>) -> Option<u64> {
    distance.map(f64::to_bits)
}

fn row_of(vendor: u128, distance: Option<f64>, commodity: u128) -> StationWithCommodity {
    StationWithCommodity {
        id: vendor,
        name: format!("vendor-{vendor:x}"),
        address: format!("{vendor:x} Main Street"),
        email: format!("{vendor:x}@example.com"),
        password: String::from("hash"),
        phone: String::from("0800"),
        latitude: 9.05f64.to_bits(),
        longitude: 7.49f64.to_bits(),
        role: String::from("station"),
        created_at: 1_700_000_000_000_000,
        updated_at: 1_700_000_500_000_000,
        distance: bits(distance),
        commodity_id: commodity,
        commodity_name: format!("commodity-{commodity:x}"),
        is_available: true,
        price: 650,
        station_id: vendor,
    }
}

fn ids(stations: &[StationResponse]) -> Vec<u128> {
    stations.iter().map(|s| s.id).collect()
}

fn offering_ids(station: &StationResponse) -> Vec<u128> {
    station.commodities.iter().map(|c| c.id).collect()
}

#[test]
fn end_to_end_example() {
    let rows = vec![
        row_of(V1, Some(2.0), C1),
        row_of(V2, Some(1.0), C2),
        row_of(V1, Some(2.0), C3),
    ];
    let stations = map_rows_to_stations(rows);
    assert_eq!(ids(&stations), vec![V2, V1]);
    assert_eq!(offering_ids(&stations[0]), vec![C2]);
    assert_eq!(offering_ids(&stations[1]), vec![C1, C3]);
    assert_eq!(stations[0].distance, bits(Some(1.0)));
    assert_eq!(stations[1].distance, bits(Some(2.0)));
}

#[test]
fn no_rows_no_stations() {
    assert!(map_rows_to_stations(Vec::new()).is_empty());
}

#[test]
fn single_of_no_rows_is_not_found() {
    match aggregate_single(Vec::new(), String::from("a@b.c")) {
        Err(StationError::NotFound(who)) => assert_eq!(who, "a@b.c"),
        other => panic!("unexpected {other:?}"),
    }
}

#[test]
fn one_vendor_many_rows() {
    let n = 25u128;
    let rows: Vec<StationWithCommodity> =
        (0..n).map(|k| row_of(V1, Some(3.5), 1000 + k)).collect();
    let stations = map_rows_to_stations(rows);
    assert_eq!(stations.len(), 1);
    assert_eq!(stations[0].id, V1);
    assert_eq!(stations[0].commodities.len() as u128, n);
    for (k, offering) in stations[0].commodities.iter().enumerate() {
        assert_eq!(offering.station_id, V1);
        assert_eq!(offering.id, 1000 + k as u128);
    }
}

#[test]
fn vendor_fields_come_from_the_first_row() {
    let mut first = row_of(V1, Some(1.0), C1);
    first.name = String::from("first");
    first.address = String::from("first address");
    first.email = String::from("first@example.com");
    first.phone = String::from("111");
    first.role = String::from("admin");
    first.latitude = 8.5f64.to_bits();
    first.longitude = 7.0f64.to_bits();
    first.created_at = 1;
    first.updated_at = 2;
    let mut second = row_of(V1, Some(9.0), C2);
    second.name = String::from("second");
    let stations = map_rows_to_stations(vec![first, second]);
    assert_eq!(stations.len(), 1);
    let s = &stations[0];
    assert_eq!(s.name, "first");
    assert_eq!(s.address, "first address");
    assert_eq!(s.email, "first@example.com");
    assert_eq!(s.phone, "111");
    assert_eq!(s.role, "admin");
    assert_eq!(s.latitude, 8.5f64.to_bits());
    assert_eq!(s.longitude, 7.0f64.to_bits());
    assert_eq!(s.created_at, 1);
    assert_eq!(s.updated_at, 2);
    assert_eq!(s.distance, bits(Some(1.0)));
    assert_eq!(offering_ids(s), vec![C1, C2]);
}

#[test]
fn offering_fields_come_from_their_row() {
    let mut row = row_of(V1, None, C1);
    row.commodity_name = String::from("diesel");
    row.is_available = false;
    row.price = -3;
    let stations = map_rows_to_stations(vec![row]);
    assert_eq!(
        stations[0].commodities,
        vec![CommoditiesResponse {
            id: C1,
            name: String::from("diesel"),
            is_available: false,
            price: -3,
            station_id: V1,
        }]
    );
}

#[test]
fn every_order_of_the_rows_ranks_alike() {
    let base = [
        (V1, 2.0, C1),
        (V2, 1.0, C2),
        (V1, 2.0, C3),
        (V3, 0.5, C4),
    ];
    let orders: [[usize; 4]; 6] = [
        [0, 1, 2, 3],
        [3, 2, 1, 0],
        [1, 0, 3, 2],
        [2, 3, 0, 1],
        [2, 0, 1, 3],
        [1, 3, 2, 0],
    ];
    for order in orders {
        let rows: Vec<StationWithCommodity> = order
            .iter()
            .map(|&k| row_of(base[k].0, Some(base[k].1), base[k].2))
            .collect();
        let stations = map_rows_to_stations(rows);
        assert_eq!(ids(&stations), vec![V3, V2, V1]);
        assert_eq!(offering_ids(&stations[0]), vec![C4]);
        assert_eq!(offering_ids(&stations[1]), vec![C2]);
        let mut of_v1 = offering_ids(&stations[2]);
        of_v1.sort();
        assert_eq!(of_v1, vec![C1, C3]);
    }
}

#[test]
fn ties_keep_the_order_of_first_appearance() {
    let rows = vec![
        row_of(V3, Some(1.0), C1),
        row_of(V1, Some(1.0), C2),
        row_of(V2, Some(0.25), C3),
        row_of(V3, Some(1.0), C4),
    ];
    assert_eq!(ids(&map_rows_to_stations(rows)), vec![V2, V3, V1]);
    let rows = vec![
        row_of(V1, Some(1.0), C2),
        row_of(V3, Some(1.0), C1),
        row_of(V2, Some(0.25), C3),
    ];
    assert_eq!(ids(&map_rows_to_stations(rows)), vec![V2, V1, V3]);
}

#[test]
fn unknown_distances_come_last() {
    let rows = vec![
        row_of(V1, None, C1),
        row_of(V2, Some(7.0), C2),
        row_of(V3, Some(f64::NAN), C3),
    ];
    assert_eq!(ids(&map_rows_to_stations(rows)), vec![V2, V1, V3]);
    let rows = vec![
        row_of(V3, Some(f64::NAN), C3),
        row_of(V1, None, C1),
        row_of(V2, Some(f64::INFINITY), C2),
    ];
    assert_eq!(ids(&map_rows_to_stations(rows)), vec![V2, V3, V1]);
}

#[test]
fn distances_rank_as_numbers() {
    let rows = vec![
        row_of(V1, Some(0.0), C1),
        row_of(V2, Some(-1.5), C2),
        row_of(V3, Some(1e-300), C3),
    ];
    assert_eq!(ids(&map_rows_to_stations(rows)), vec![V2, V1, V3]);
    let rows = vec![row_of(V1, Some(0.0), C1), row_of(V2, Some(-0.0), C2)];
    assert_eq!(ids(&map_rows_to_stations(rows)), vec![V1, V2]);
    let rows = vec![row_of(V2, Some(-0.0), C2), row_of(V1, Some(0.0), C1)];
    assert_eq!(ids(&map_rows_to_stations(rows)), vec![V2, V1]);
    let rows = vec![
        row_of(V1, Some(-2.0), C1),
        row_of(V2, Some(-3.0), C2),
        row_of(V3, Some(f64::NEG_INFINITY), C3),
    ];
    assert_eq!(ids(&map_rows_to_stations(rows)), vec![V3, V2, V1]);
}

#[test]
fn a_single_vendor_is_returned_as_it_is() {
    let rows = vec![row_of(V1, Some(f64::NAN), C1), row_of(V1, Some(4.0), C2)];
    let stations = map_rows_to_stations(rows);
    assert_eq!(stations.len(), 1);
    assert!(f64::from_bits(stations[0].distance.unwrap()).is_nan());
    assert_eq!(offering_ids(&stations[0]), vec![C1, C2]);
}

#[test]
fn a_vendor_whose_offering_names_another_vendor_is_rebuilt() {
    let mut stray = row_of(V2, Some(0.5), C2);
    stray.station_id = V1;
    let rows = vec![row_of(V1, Some(1.0), C1), stray];
    let stations = map_rows_to_stations(rows);
    assert_eq!(ids(&stations), vec![V2, V1]);
    assert_eq!(offering_ids(&stations[0]), vec![C2]);
    assert_eq!(stations[0].commodities[0].station_id, V1);
    assert_eq!(offering_ids(&stations[1]), vec![C1]);
}

#[test]
fn a_row_whose_offering_names_another_vendor_adds_its_offering() {
    let mut stray = row_of(V1, Some(1.0), C3);
    stray.station_id = V2;
    let rows = vec![row_of(V1, Some(1.0), C1), row_of(V2, Some(0.5), C2), stray];
    let stations = map_rows_to_stations(rows);
    assert_eq!(ids(&stations), vec![V2, V1]);
    assert_eq!(offering_ids(&stations[0]), vec![C2]);
    assert_eq!(offering_ids(&stations[1]), vec![C1, C3]);
    assert_eq!(stations[1].commodities[0].station_id, V1);
    assert_eq!(stations[1].commodities[1].station_id, V2);
    let total: usize = stations.iter().map(|s| s.commodities.len()).sum();
    assert_eq!(total, 3);
}

#[test]
fn vendor_fields_come_from_the_first_row_whatever_its_offering_names() {
    let mut first = row_of(V1, Some(9.0), C1);
    first.station_id = V2;
    first.name = String::from("first");
    let mut third = row_of(V1, Some(1.0), C3);
    third.name = String::from("third");
    let rows = vec![first, row_of(V2, Some(5.0), C2), third];
    let stations = map_rows_to_stations(rows);
    assert_eq!(ids(&stations), vec![V2, V1]);
    assert_eq!(stations[1].name, "first");
    assert_eq!(stations[1].distance, bits(Some(9.0)));
    assert_eq!(offering_ids(&stations[1]), vec![C1, C3]);
}

#[test]
fn an_offering_that_names_a_vendor_not_among_the_rows_is_kept_with_its_row() {
    let mut only = row_of(V1, Some(1.0), C1);
    only.station_id = V3;
    let stations = map_rows_to_stations(vec![only]);
    assert_eq!(ids(&stations), vec![V1]);
    assert_eq!(offering_ids(&stations[0]), vec![C1]);
    assert_eq!(stations[0].commodities[0].station_id, V3);

    let mut only = row_of(V1, Some(1.0), C1);
    only.station_id = V3;
    let station = aggregate_single(vec![only], String::from("x")).unwrap();
    assert_eq!(station.id, V1);
}

#[test]
fn every_row_adds_one_offering() {
    let mut rows = Vec::new();
    for k in 0..30u128 {
        let mut row = row_of(1 + k % 4, Some((k % 4) as f64), 500 + k);
        row.station_id = 1 + (k * 7) % 5;
        rows.push(row);
    }
    let stations = map_rows_to_stations(rows);
    assert_eq!(ids(&stations), vec![1, 2, 3, 4]);
    let total: usize = stations.iter().map(|s| s.commodities.len()).sum();
    assert_eq!(total, 30);
    for s in &stations {
        let expected: Vec<u128> = (0..30u128).filter(|k| 1 + k % 4 == s.id).map(|k| 500 + k).collect();
        assert_eq!(offering_ids(s), expected);
    }
}

#[test]
fn duplicate_rows_are_kept() {
    let rows = vec![row_of(V1, Some(1.0), C1), row_of(V1, Some(1.0), C1)];
    let stations = map_rows_to_stations(rows);
    assert_eq!(offering_ids(&stations[0]), vec![C1, C1]);
}

#[test]
fn single_returns_the_one_vendor() {
    let rows = vec![row_of(V1, None, C1), row_of(V1, None, C2)];
    let station = aggregate_single(rows, String::from("who")).unwrap();
    assert_eq!(station.id, V1);
    assert_eq!(offering_ids(&station), vec![C1, C2]);
    assert_eq!(station.distance, None);
}

#[test]
fn single_returns_the_first_in_rank() {
    let rows = vec![row_of(V1, Some(5.0), C1), row_of(V2, Some(2.0), C2)];
    let station = aggregate_single(rows, String::from("who")).unwrap();
    assert_eq!(station.id, V2);
}

#[test]
fn many_vendors_are_ranked() {
    let mut rows = Vec::new();
    for k in 0..40u128 {
        let distance = ((k * 7) % 40) as f64 / 4.0;
        rows.push(row_of(100 + k, Some(distance), 2 * k));
        rows.push(row_of(100 + k, Some(distance), 2 * k + 1));
    }
    let stations = map_rows_to_stations(rows);
    assert_eq!(stations.len(), 40);
    for pair in stations.windows(2) {
        let a = f64::from_bits(pair[0].distance.unwrap());
        let b = f64::from_bits(pair[1].distance.unwrap());
        assert!(a < b);
    }
    for s in &stations {
        assert_eq!(s.commodities.len(), 2);
        assert!(s.commodities.iter().all(|c| c.station_id == s.id));
    }
}

#[test]
fn from_rows_takes_every_row() {
    let rows = vec![row_of(V1, Some(2.0), C1), row_of(V1, Some(2.0), C2), row_of(V1, Some(2.0), C3)];
    let station = StationResponse::from(rows.clone());
    assert_eq!(station.id, V1);
    assert_eq!(station.name, rows[0].name);
    assert_eq!(station.distance, bits(Some(2.0)));
    assert_eq!(offering_ids(&station), vec![C1, C2, C3]);
    assert_eq!(station, map_rows_to_stations(rows).remove(0));
}

#[test]
fn from_station_is_at_distance_zero() {
    let station = Station {
        id: V1,
        name: String::from("n"),
        address: String::from("a"),
        email: String::from("e"),
        phone: String::from("p"),
        latitude: 9.0f64.to_bits(),
        longitude: 7.5f64.to_bits(),
        role: String::from("station"),
        created_at: 10,
        updated_at: 20,
    };
    let response = StationResponse::from_station(station.clone());
    assert_eq!(response.id, V1);
    assert_eq!(response.name, "n");
    assert_eq!(response.address, "a");
    assert_eq!(response.email, "e");
    assert_eq!(response.phone, "p");
    assert_eq!(response.latitude, station.latitude);
    assert_eq!(response.longitude, station.longitude);
    assert_eq!(response.role, "station");
    assert_eq!(response.created_at, 10);
    assert_eq!(response.updated_at, 20);
    assert_eq!(response.distance.map(f64::from_bits), Some(0.0));
    assert!(response.commodities.is_empty());
}
