use station_locator::commodity::Commodity;
use station_locator::dto::{
    CommoditiesResponse, CreateStationDto, StationSigninDto, StationWithCommodity,
};
use station_locator::errors::StationError;
use station_locator::service::{NewCommodity, NewStation, SignupAction, SignupEvent, SignupState};
use station_locator::stations::station::Station;
use station_locator::token::TokenError;


fn row_of(vendor: u128, commodity: u128, password: &str) -> StationWithCommodity {
    StationWithCommodity {
        id: vendor,
        name: String::from("name"),
        address: String::from("address"),
        email: String::from("a@b.c"),
        password: String::from(password),
        phone: String::from("0800"),
        latitude: 9.05f64.to_bits(),
        longitude: 7.49f64.to_bits(),
        role: String::from("station"),
        created_at: 1,
        updated_at: 2,
        distance: None,
        commodity_id: commodity,
        commodity_name: String::from("petrol"),
        is_available: true,
        price: 650,
        station_id: vendor,
    }
}

fn body() -> CreateStationDto {
    CreateStationDto {
        name: String::from("N"),
        address: String::from("A"),
        email: String::from("  new@b.c \n"),
        phone: String::from("P"),
        password: String::from("pw"),
        latitude: 9.0f64.to_bits(),
        longitude: 7.0f64.to_bits(),
        code: String::from("C"),
    }
}

fn stored_station() -> Station {
    Station {
        id: 77,
        name: String::from("N"),
        address: String::from("A"),
        email: String::from("  new@b.c \n"),
        phone: String::from("P"),
        latitude: 9.0f64.to_bits(),
        longitude: 7.0f64.to_bits(),
        role: String::from("station"),
        created_at: 10,
        updated_at: 11,
    }
}

#[test]
fn a_stored_hash_verifies_its_password() {
    let fresh = bcrypt::hash("hunter2", 4).unwrap();
    assert_eq!(StationWithCommodity::verify_password("hunter2", &fresh).unwrap(), true);
    assert_eq!(StationWithCommodity::verify_password("hunter3", &fresh).unwrap(), false);
    assert_eq!(StationWithCommodity::verify_password("", &fresh).unwrap(), false);
    assert!(StationWithCommodity::verify_password("hunter2", "not a hash").is_err());
    assert!(StationWithCommodity::verify_password("hunter2", "").is_err());
    assert!(StationWithCommodity::verify_password("hunter2", "hunter2").is_err());
}

#[test]
fn a_known_hash_verifies_its_password() {
    let known = bcrypt::hash_with_salt("hunter2", 4, [7u8; 16]).unwrap().to_string();
    assert_eq!(StationWithCommodity::verify_password("hunter2", &known).unwrap(), true);
    assert_eq!(StationWithCommodity::verify_password("Hunter2", &known).unwrap(), false);
}

#[test]
fn a_hashed_password_verifies() {
    let hashed = StationWithCommodity::hash_password("correct horse").unwrap();
    assert_ne!(hashed, "correct horse");
    assert_eq!(hashed.len(), 60);
    assert!(hashed.starts_with("$2b$12$"));
    assert!(StationWithCommodity::verify_password("correct horse", &hashed).unwrap());
    assert!(!StationWithCommodity::verify_password("correct horsf", &hashed).unwrap());
}

#[test]
fn sign_in_without_rows_is_not_found() {
    for verdict in [Some(true), Some(false), None] {
        match StationWithCommodity::signin_with(Vec::new(), String::from("a@b.c"), verdict) {
            Err(StationError::NotFound(who)) => assert_eq!(who, "a@b.c"),
            other => panic!("unexpected {other:?}"),
        }
    }
    let body = StationSigninDto { email: String::from("x@y.z"), password: String::from("pw") };
    match StationWithCommodity::signin(Vec::new(), body) {
        Err(StationError::NotFound(who)) => assert_eq!(who, "x@y.z"),
        other => panic!("unexpected {other:?}"),
    }
}

#[test]
fn sign_in_without_a_favourable_verdict_is_wrong_credentials() {
    for verdict in [Some(false), None] {
        let rows = vec![row_of(1, 10, "h")];
        match StationWithCommodity::signin_with(rows, String::from("a@b.c"), verdict) {
            Err(StationError::WrongCredentials(what)) => assert_eq!(what, "email or password"),
            other => panic!("unexpected {other:?}"),
        }
    }
}

#[test]
fn sign_in_rebuilds_the_vendor() {
    let rows = vec![row_of(1, 10, "h"), row_of(1, 11, "h")];
    let station =
        StationWithCommodity::signin_with(rows, String::from("a@b.c"), Some(true)).unwrap();
    assert_eq!(station.id, 1);
    assert_eq!(station.email, "a@b.c");
    assert_eq!(station.commodities.iter().map(|c| c.id).collect::<Vec<_>>(), vec![10, 11]);
}

#[test]
fn sign_in_with_rows_always_rebuilds_a_vendor() {
    let mut stray = row_of(1, 10, "h");
    stray.station_id = 2;
    let station =
        StationWithCommodity::signin_with(vec![stray], String::from("a@b.c"), Some(true)).unwrap();
    assert_eq!(station.id, 1);
    assert_eq!(station.commodities.len(), 1);
    assert_eq!(station.commodities[0].station_id, 2);
}

#[test]
fn sign_in_checks_the_password_of_the_first_row() {
    let good = bcrypt::hash("hunter2", 4).unwrap();
    let other = bcrypt::hash("something else", 4).unwrap();
    let rows = vec![row_of(1, 10, &good), row_of(1, 11, &other)];
    let body = StationSigninDto { email: String::from("a@b.c"), password: String::from("hunter2") };
    let station = StationWithCommodity::signin(rows, body).unwrap();
    assert_eq!(station.commodities.len(), 2);

    let rows = vec![row_of(1, 10, &other), row_of(1, 11, &good)];
    let body = StationSigninDto { email: String::from("a@b.c"), password: String::from("hunter2") };
    assert!(matches!(
        StationWithCommodity::signin(rows, body),
        Err(StationError::WrongCredentials(_))
    ));

    let rows = vec![row_of(1, 10, "garbage")];
    let body = StationSigninDto { email: String::from("a@b.c"), password: String::from("hunter2") };
    match StationWithCommodity::signin(rows, body) {
        Err(StationError::WrongCredentials(what)) => assert_eq!(what, "email or password"),
        other => panic!("unexpected {other:?}"),
    }
}

#[test]
fn a_token_is_answered_with() {
    let (status, message) =
        StationWithCommodity::access_granted(Ok(String::from("a.b.c"))).unwrap();
    assert_eq!(status, 200);
    assert_eq!(message.access_token, "a.b.c");
    match StationWithCommodity::access_granted(Err(TokenError::SigningError)) {
        Err(StationError::WrongCredentials(what)) => assert_eq!(what, "token could not be signed"),
        other => panic!("unexpected {other:?}"),
    }
}

#[test]
fn a_registration_runs_its_course() {
    let (state, action) =
        StationWithCommodity::signup(SignupState::Received(body()), SignupEvent::Started);
    match action {
        SignupAction::LookUpEmail(email) => assert_eq!(email, "new@b.c"),
        other => panic!("unexpected {other:?}"),
    }
    assert!(matches!(&state, SignupState::CheckingEmail(b) if *b == body()));

    let (state, action) = StationWithCommodity::signup(state, SignupEvent::EmailLookedUp(None));
    match action {
        SignupAction::HashPassword(password) => assert_eq!(password, "pw"),
        other => panic!("unexpected {other:?}"),
    }
    assert!(matches!(&state, SignupState::Hashing(b) if *b == body()));

    let (state, action) =
        StationWithCommodity::signup(state, SignupEvent::PasswordHashed(String::from("HASH")));
    match action {
        SignupAction::StoreStation(new_station) => assert_eq!(
            new_station,
            NewStation {
                name: String::from("N"),
                address: String::from("A"),
                email: String::from("  new@b.c \n"),
                phone: String::from("P"),
                password: String::from("HASH"),
                latitude: 9.0f64.to_bits(),
                longitude: 7.0f64.to_bits(),
            }
        ),
        other => panic!("unexpected {other:?}"),
    }
    assert!(matches!(state, SignupState::StoringStation));

    let (state, action) =
        StationWithCommodity::signup(state, SignupEvent::StationStored(stored_station()));
    match action {
        SignupAction::StoreCommodity(commodity) => {
            assert_eq!(commodity, NewCommodity { name: String::from("petrol"), station_id: 77 })
        }
        other => panic!("unexpected {other:?}"),
    }
    assert!(matches!(&state, SignupState::StoringCommodity(s) if *s == stored_station()));

    let commodity = Commodity {
        id: 5,
        name: String::from("petrol"),
        price: 0,
        station_id: 77,
        is_available: false,
        created_at: 12,
        updated_at: 13,
    };
    let (state, action) =
        StationWithCommodity::signup(state, SignupEvent::CommodityStored(commodity));
    match action {
        SignupAction::Respond(status, response) => {
            assert_eq!(status, 201);
            assert_eq!(response.id, 77);
            assert_eq!(response.name, "N");
            assert_eq!(response.email, "  new@b.c \n");
            assert_eq!(response.role, "station");
            assert_eq!(response.created_at, 10);
            assert_eq!(response.updated_at, 11);
            assert_eq!(response.distance.map(f64::from_bits), Some(0.0));
            assert_eq!(
                response.commodities,
                vec![CommoditiesResponse {
                    id: 5,
                    name: String::from("petrol"),
                    is_available: false,
                    price: 0,
                    station_id: 77,
                }]
            );
        }
        other => panic!("unexpected {other:?}"),
    }
    assert!(matches!(state, SignupState::Finished));
}

#[test]
fn a_known_email_is_refused() {
    let (state, action) = StationWithCommodity::signup(
        SignupState::CheckingEmail(body()),
        SignupEvent::EmailLookedUp(Some(Some(1))),
    );
    assert!(matches!(state, SignupState::Finished));
    assert!(matches!(action, SignupAction::Refuse(StationError::AlreadyExists)));
}

#[test]
fn a_lookup_without_a_value_lets_the_registration_go_on() {
    let (state, action) = StationWithCommodity::signup(
        SignupState::CheckingEmail(body()),
        SignupEvent::EmailLookedUp(Some(None)),
    );
    assert!(matches!(state, SignupState::Hashing(_)));
    assert!(matches!(action, SignupAction::HashPassword(_)));
}

#[test]
fn an_event_out_of_turn_ends_the_registration() {
    let (state, action) = StationWithCommodity::signup(
        SignupState::Received(body()),
        SignupEvent::PasswordHashed(String::from("h")),
    );
    assert!(matches!(state, SignupState::Finished));
    assert!(matches!(action, SignupAction::OutOfTurn));
    let (state, action) = StationWithCommodity::signup(SignupState::Finished, SignupEvent::Started);
    assert!(matches!(state, SignupState::Finished));
    assert!(matches!(action, SignupAction::OutOfTurn));
    let (_, action) = StationWithCommodity::signup(
        SignupState::StoringStation,
        SignupEvent::EmailLookedUp(None),
    );
    assert!(matches!(action, SignupAction::OutOfTurn));
}
