use station_locator::auth::{accept_checked, authorize, authorize_at, read_bearer};
use station_locator::authorize_role::{authorize_role, AccessError};
use station_locator::claims::{Claims, EncodedClaims};
use station_locator::dto::StationResponse;
use station_locator::errors::StationError;
use station_locator::stations::station::Station;
use station_locator::token::{TokenError, TokenService};

fn bearer(header: &str) -> Option<String> {
    read_bearer(header)
}

fn wrong(result: Result<EncodedClaims, StationError>) -> String {
    match result {
        Err(StationError::WrongCredentials(what)) => what,
        other => panic!("unexpected {other:?}"),
    }
}

fn claims_with_role(role: &str) -> Claims {
    Claims {
        exp: 2,
        iat: 1,
        station_res: StationResponse {
            id: 7,
            name: String::new(),
            address: String::new(),
            email: String::new(),
            phone: String::new(),
            latitude: 0,
            longitude: 0,
            role: String::from(role),
            created_at: 0,
            updated_at: 0,
            distance: None,
            commodities: Vec::new(),
        },
    }
}

fn roles(names: &[&str]) -> Vec<String> {
    names.iter().map(|n| String::from(*n)).collect()
}

#[test]
fn a_bearer_header_gives_its_token() {
    assert_eq!(bearer("Bearer abc.def.ghi"), Some(String::from("abc.def.ghi")));
    assert_eq!(bearer("Bearer   abc  "), Some(String::from("abc")));
    assert_eq!(bearer("Bearer \tabc\r\n"), Some(String::from("abc")));
    assert_eq!(bearer("Bearer a b"), Some(String::from("a b")));
    assert_eq!(bearer("Bearer "), Some(String::new()));
    assert_eq!(bearer("Bearer    "), Some(String::new()));
    assert_eq!(bearer("Bearer \u{a0}t\u{3000}"), Some(String::from("t")));
    assert_eq!(bearer("Bearer t\u{e9}"), Some(String::from("t\u{e9}")));
}

#[test]
fn only_one_scheme_is_left_out() {
    assert_eq!(bearer("Bearer Bearer abc"), Some(String::from("Bearer abc")));
    assert_eq!(bearer("Bearer Bearer Bearer "), Some(String::from("Bearer Bearer")));
    assert_eq!(bearer("Bearer  Bearer abc"), Some(String::from("Bearer abc")));
    assert_eq!(bearer("Bearer Bearerabc"), Some(String::from("Bearerabc")));
}

#[test]
fn a_token_behind_a_repeated_scheme_is_turned_away() {
    let token = TokenService::new("s3cret").create_token_at("{\"id\":1}", 1000).unwrap();
    let header = format!("Bearer Bearer {token}");
    assert_eq!(wrong(authorize_at(Some(&header), "s3cret", 2000)), "token");
    let header = format!("Bearer {token}");
    assert!(authorize_at(Some(&header), "s3cret", 2000).is_ok());
}

#[test]
fn other_headers_give_no_token() {
    for header in ["", "Bearer", "bearer abc", "BEARER abc", " Bearer abc", "Basic abc", "Bearerabc", "abc"] {
        assert_eq!(bearer(header), None, "{header}");
    }
}

#[test]
fn headers_are_read_as_the_standard_library_reads_them() {
    for header in [
        "Bearer x",
        "Bearer Bearer  x y ",
        "Bearer \u{2003}x\u{2028}",
        "Bearer \u{200b}x",
        "Bearer\u{a0}x",
        "Bearer \u{1680}\u{85}x\u{205f}\u{202f}\u{2029}\u{200a}\u{2000}",
        "Bearer \u{0b}\u{0c}x\u{1c}",
        "Basic x",
    ] {
        let expected = header.strip_prefix("Bearer ").map(|rest| rest.trim().to_string());
        assert_eq!(bearer(header), expected, "{header:?}");
    }
}

#[test]
fn a_request_with_a_good_token_is_let_in() {
    let token = TokenService::new("s3cret").create_token_at("{\"id\":1}", 1000).unwrap();
    let header = format!("Bearer {token}");
    let claims = authorize_at(Some(&header), "s3cret", 2000).unwrap();
    assert_eq!(
        claims,
        EncodedClaims { exp: 87400, iat: 1000, station_res: String::from("{\"id\":1}") }
    );
    let header = format!("Bearer  {token} ");
    assert!(authorize_at(Some(&header), "s3cret", 87400).is_ok());
}

#[test]
fn a_request_without_a_bearer_token_is_turned_away() {
    assert_eq!(wrong(authorize_at(None, "s3cret", 0)), "jwt not present");
    assert_eq!(wrong(authorize_at(Some("Basic abc"), "s3cret", 0)), "jwt not present");
    assert_eq!(wrong(authorize_at(Some(""), "s3cret", 0)), "jwt not present");
    assert_eq!(wrong(authorize(None, "s3cret")), "jwt not present");
}

#[test]
fn every_token_failure_looks_the_same() {
    let token = TokenService::new("s3cret").create_token_at("{\"id\":1}", 1000).unwrap();
    let header = format!("Bearer {token}");
    assert_eq!(wrong(authorize_at(Some(&header), "s3cret", 87401)), "token");
    assert_eq!(wrong(authorize_at(Some(&header), "other", 2000)), "token");
    assert_eq!(wrong(authorize_at(Some("Bearer abc"), "s3cret", 2000)), "token");
    assert_eq!(wrong(authorize_at(Some("Bearer "), "s3cret", 2000)), "token");
    assert_eq!(wrong(authorize(Some(&header), "s3cret")), "token");
    for e in [
        TokenError::Expired,
        TokenError::InvalidSignature,
        TokenError::MalformedClaims,
        TokenError::SigningError,
    ] {
        assert_eq!(wrong(accept_checked(Err(e))), "token");
    }
}

#[test]
fn a_fresh_token_is_let_in_now() {
    let token = TokenService::new("s3cret").create_token("{\"id\":1}").unwrap();
    let header = format!("Bearer {token}");
    let claims = authorize(Some(&header), "s3cret").unwrap();
    assert_eq!(claims.station_res, "{\"id\":1}");
    assert_eq!(claims.exp - claims.iat, 86400);
}

#[test]
fn a_required_role_passes() {
    let claims = claims_with_role("vendor");
    assert_eq!(authorize_role(&roles(&["vendor", "administrator"]), Some(&claims)), Ok(()));
    assert_eq!(authorize_role(&roles(&["administrator", "vendor"]), Some(&claims)), Ok(()));
    assert_eq!(authorize_role(&roles(&["vendor"]), Some(&claims)), Ok(()));
    assert_eq!(authorize_role(&roles(&["vendor", "vendor"]), Some(&claims)), Ok(()));
    let claims = claims_with_role("station");
    assert_eq!(authorize_role(&roles(&["station"]), Some(&claims)), Ok(()));
}

#[test]
fn another_role_is_forbidden() {
    let claims = claims_with_role("user");
    assert_eq!(
        authorize_role(&roles(&["vendor", "administrator"]), Some(&claims)),
        Err(AccessError::Forbidden)
    );
    assert_eq!(authorize_role(&roles(&[]), Some(&claims)), Err(AccessError::Forbidden));
    assert_eq!(authorize_role(&roles(&["User"]), Some(&claims)), Err(AccessError::Forbidden));
    assert_eq!(authorize_role(&roles(&["user "]), Some(&claims)), Err(AccessError::Forbidden));
    assert_eq!(authorize_role(&roles(&[""]), Some(&claims)), Err(AccessError::Forbidden));
    let claims = claims_with_role("");
    assert_eq!(authorize_role(&roles(&["user"]), Some(&claims)), Err(AccessError::Forbidden));
    assert_eq!(authorize_role(&roles(&[""]), Some(&claims)), Ok(()));
}

#[test]
fn no_claims_is_unauthenticated() {
    assert_eq!(
        authorize_role(&roles(&["vendor", "administrator"]), None),
        Err(AccessError::Unauthenticated)
    );
    assert_eq!(authorize_role(&roles(&[]), None), Err(AccessError::Unauthenticated));
    assert_ne!(AccessError::Unauthenticated, AccessError::Forbidden);
}

#[test]
fn refusals_have_their_status() {
    assert_eq!(AccessError::Unauthenticated.status_code(), 401);
    assert_eq!(AccessError::Forbidden.status_code(), 403);
}

#[test]
fn the_claimed_vendor_is_asked_about_and_no_claims_are_no_credential() {
    let claims = claims_with_role("station");
    assert_eq!(Station::claimed_id(Some(&claims)).unwrap(), 7);
    match Station::claimed_id(None) {
        Err(StationError::WrongCredentials(what)) => assert_eq!(what, "jwt not present"),
        other => panic!("unexpected {other:?}"),
    }
    let (status, _) = Station::claimed_id(None).unwrap_err().into_response();
    assert_eq!(status, 401);
}
