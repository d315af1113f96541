use station_locator::commodity::{Commodity, UpdateCommodityDto, UpdateCommodityResponse};
use station_locator::errors::{CommodityError, StationError};

#[test]
fn station_not_found() {
    let (status, body) = StationError::NotFound(String::from("a@b.c")).into_response();
    assert_eq!(status, 404);
    assert_eq!(body.message, "Station with identifier a@b.c not found.");
}

#[test]
fn station_already_exists() {
    let (status, body) = StationError::AlreadyExists.into_response();
    assert_eq!(status, 409);
    assert_eq!(body.message, "Station already exists.");
}

#[test]
fn station_wrong_credentials() {
    let (status, body) = StationError::WrongCredentials(String::from("token")).into_response();
    assert_eq!(status, 401);
    assert_eq!(body.message, "Invalid: token ");
    let (_, body) = StationError::WrongCredentials(String::new()).into_response();
    assert_eq!(body.message, "Invalid:  ");
}

#[test]
fn station_database_error_is_not_described() {
    let (status, body) = StationError::DatabaseError(sqlx::Error::RowNotFound).into_response();
    assert_eq!(status, 500);
    assert_eq!(body.message, "Internal server error.");
    let (status, body) =
        StationError::DatabaseError(sqlx::Error::Protocol(String::from("secret detail")))
            .into_response();
    assert_eq!(status, 500);
    assert_eq!(body.message, "Internal server error.");
}

#[test]
fn commodity_not_found() {
    let (status, body) = CommodityError::NotFound(String::from("42")).into_response();
    assert_eq!(status, 404);
    assert_eq!(body.message, "Station with identifier 42 not found.");
}

#[test]
fn commodity_already_exists() {
    let (status, body) = CommodityError::AlreadyExists.into_response();
    assert_eq!(status, 409);
    assert_eq!(body.message, "Commodity already exists.");
}

#[test]
fn commodity_wrong_credentials() {
    let (status, body) = CommodityError::WrongCredentials(String::from("price")).into_response();
    assert_eq!(status, 401);
    assert_eq!(body.message, "price");
}

#[test]
fn commodity_database_error_is_not_described() {
    let (status, body) = CommodityError::DatabaseError(sqlx::Error::PoolClosed).into_response();
    assert_eq!(status, 500);
    assert_eq!(body.message, "Internal server error.");
}

#[test]
fn availability_defaults_to_unavailable() {
    assert!(UpdateCommodityDto { price: 1, is_available: Some(true) }.availability());
    assert!(!UpdateCommodityDto { price: 1, is_available: Some(false) }.availability());
    assert!(!UpdateCommodityDto { price: 1, is_available: None }.availability());
}

#[test]
fn an_update_answers_with_the_commodity() {
    let updated = UpdateCommodityResponse { id: 9, price: 700, is_available: true, updated_at: 5 };
    let (status, body) =
        Commodity::update_commodity(Some(updated.clone()), String::from("9")).unwrap();
    assert_eq!(status, 200);
    assert_eq!(body, updated);
}

#[test]
fn an_update_of_nothing_is_not_found() {
    match Commodity::update_commodity(None, String::from("0000-01")) {
        Err(CommodityError::NotFound(what)) => assert_eq!(what, "0000-01"),
        other => panic!("unexpected {other:?}"),
    }
}
