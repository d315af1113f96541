//! Signing in and registering vendors: the decisions between the queries.

use vstd::prelude::*;
use crate::aggregate::{aggregate_single, aggregated};
use crate::claims::digit_char;
use crate::commodity::Commodity;
use crate::dto::{
    offering_of_commodity, vendor_of_station, Aggregate, CommoditiesResponse, CreateStationDto, Row,
    StationResponse, StationSigninDto, StationWithCommodity,
};
use crate::errors::StationError;
use crate::stations::station::Station;
use crate::text::{trim_text, trimmed};
use crate::token::{ApiMessage, TokenError};

verus! {

/// `bcrypt::BcryptError`: how hashing or reading a hash went wrong. The
/// library carries it through unread.
#[verifier::external_type_specification]
#[verifier::external_body]
pub struct ExHashFailure(bcrypt::BcryptError);

/// The work factor of password hashes.
pub const BCRYPT_COST: u32 = 12;

/// HTTP status of success.
pub const OK: u16 = 200;

/// HTTP status of a record that was created.
pub const CREATED: u16 = 201;

/// Whether the password is the one that the stored hash was made from, or
/// `None` where the stored hash cannot be used: it is not in the shape of a
/// hash, or its work factor is not allowed.
pub uninterp spec fn password_verdict(password: Seq<char>, stored_hash: Seq<char>) -> Option<bool>;

/// `bcrypt::verify`: it reads salt and cost out of the stored hash, hashes
/// the password with them and compares. The contract names the result: the
/// call is a function of the password and the stored hash alone.
#[verifier::external_body]
fn bcrypt_verify(password: &str, stored_hash: &str) -> (verdict: Result<bool, bcrypt::BcryptError>)
    ensures
        verdict matches Ok(v) ==> password_verdict(password@, stored_hash@) == Some(v),
        verdict is Err ==> password_verdict(password@, stored_hash@) is None,
{
    bcrypt::verify(password, stored_hash)
}

/// How a hash of work factor `cost` starts: the version `2b` and the cost in
/// two digits, each behind a dollar sign, and one more dollar sign.
pub open spec fn hash_head(cost: u32) -> Seq<char> {
    "$2b$"@ + seq![digit_char((cost / 10) as nat), digit_char((cost % 10) as nat)] + "$"@
}

/// `bcrypt::hash`: a hash of the password under a salt that the crate draws
/// at random, so the text itself is not named. Whatever the salt, the text
/// holds salt and cost, and `bcrypt::verify` recomputes the same hash from
/// them for the same password: a hash that is returned is one that the
/// password is verified against. The crate writes the text as 60 characters
/// that start with the version and the cost. The call fails where the cost
/// is not one of 4 to 31, or no salt can be drawn.
#[verifier::external_body]
fn bcrypt_hash(password: &str, cost: u32) -> (hashed: Result<String, bcrypt::BcryptError>)
    ensures
        hashed matches Ok(text) ==> password_verdict(password@, text@) == Some(true),
        hashed matches Ok(text) ==> text@.len() == 60 && text@.subrange(0, 7) == hash_head(cost),
{
    bcrypt::hash(password, cost)
}

/// How a sign-in ends.
pub ghost enum Signin {
    /// The vendor is signed in.
    Station(Aggregate),
    /// No vendor answers to the email.
    NotFound,
    /// The password is not the vendor's.
    WrongCredentials,
}

/// How the sign-in with these rows ends, given the verdict on the password:
/// without rows no vendor is found; without a favourable verdict the
/// credentials are wrong; else the vendor that the rows rebuild is signed in.
pub open spec fn signin_outcome(rows: Seq<Row>, verdict: Option<bool>) -> Signin {
    if rows.len() == 0 {
        Signin::NotFound
    } else if verdict != Some(true) {
        Signin::WrongCredentials
    } else {
        Signin::Station(aggregated(rows)[0])
    }
}

/// Whether the result reports the outcome of the sign-in under `email`.
pub open spec fn reports(
    result: Result<StationResponse, StationError>,
    email: Seq<char>,
    outcome: Signin,
) -> bool {
    match outcome {
        Signin::Station(vendor) => result matches Ok(station) && station@ == vendor,
        Signin::NotFound => result matches Err(StationError::NotFound(who)) && who@ == email,
        Signin::WrongCredentials => result matches Err(StationError::WrongCredentials(what))
            && what@ == "email or password"@,
    }
}

/// The stored hash that the rows carry: that of the first row.
pub open spec fn stored_hash(rows: Seq<Row>) -> Seq<char> {
    rows.first().password
}

/// Parameters of the query that stores a new vendor.
#[derive(Debug, Clone, PartialEq)]
pub struct NewStation {
    pub name: String,
    pub address: String,
    pub email: String,
    pub phone: String,
    pub password: String,
    pub latitude: u64,
    pub longitude: u64,
}

/// Parameters of the query that stores a vendor's first commodity.
#[derive(Debug, Clone, PartialEq)]
pub struct NewCommodity {
    pub name: String,
    pub station_id: u128,
}

/// How far a registration has come.
#[derive(Debug)]
pub enum SignupState {
    /// The request has arrived.
    Received(CreateStationDto),
    /// The email is being looked up.
    CheckingEmail(CreateStationDto),
    /// The password is being hashed.
    Hashing(CreateStationDto),
    /// The vendor is being stored.
    StoringStation,
    /// The vendor's first commodity is being stored.
    StoringCommodity(Station),
    /// Nothing is left to do.
    Finished,
}

/// What has happened since the last step of a registration.
#[derive(Debug)]
pub enum SignupEvent {
    /// The registration starts.
    Started,
    /// The lookup of the email has answered.
    EmailLookedUp(Option<Option<i32>>),
    /// The password has been hashed.
    PasswordHashed(String),
    /// The vendor has been stored.
    StationStored(Station),
    /// The commodity has been stored.
    CommodityStored(Commodity),
}

/// What is to be done next in a registration.
#[derive(Debug)]
pub enum SignupAction {
    /// Look the email up among the stored vendors.
    LookUpEmail(String),
    /// Hash the password.
    HashPassword(String),
    /// Store the vendor.
    StoreStation(NewStation),
    /// Store the commodity.
    StoreCommodity(NewCommodity),
    /// Answer with the status and the new vendor.
    Respond(u16, StationResponse),
    /// Answer with the failure.
    Refuse(StationError),
    /// The event does not answer what was asked for: do nothing.
    OutOfTurn,
}

/// Whether `step` is the step that a registration in `state` takes on
/// `event`.
pub open spec fn follows(
    state: SignupState,
    event: SignupEvent,
    step: (SignupState, SignupAction),
) -> bool {
    match (state, event) {
        (SignupState::Received(body), SignupEvent::Started) => {
            &&& step.0 == SignupState::CheckingEmail(body)
            &&& step.1 matches SignupAction::LookUpEmail(email) && email@ == trimmed(body.email@)
        },
        (SignupState::CheckingEmail(body), SignupEvent::EmailLookedUp(found)) => {
            if found matches Some(Some(_)) {
                &&& step.0 is Finished
                &&& step.1 matches SignupAction::Refuse(e) && e is AlreadyExists
            } else {
                &&& step.0 == SignupState::Hashing(body)
                &&& step.1 matches SignupAction::HashPassword(password) && password@
                    == body.password@
            }
        },
        (SignupState::Hashing(body), SignupEvent::PasswordHashed(hashed)) => {
            &&& step.0 is StoringStation
            &&& step.1 == SignupAction::StoreStation(
                NewStation {
                    name: body.name,
                    address: body.address,
                    email: body.email,
                    phone: body.phone,
                    password: hashed,
                    latitude: body.latitude,
                    longitude: body.longitude,
                },
            )
        },
        (SignupState::StoringStation, SignupEvent::StationStored(station)) => {
            &&& step.0 == SignupState::StoringCommodity(station)
            &&& step.1 matches SignupAction::StoreCommodity(commodity) && commodity.name@
                == "petrol"@ && commodity.station_id == station.id
        },
        (SignupState::StoringCommodity(station), SignupEvent::CommodityStored(commodity)) => {
            &&& step.0 is Finished
            &&& step.1 matches SignupAction::Respond(status, response) && status == CREATED
                && response@ == vendor_of_station(station, seq![offering_of_commodity(commodity)])
        },
        _ => step.0 is Finished && step.1 is OutOfTurn,
    }
}

impl StationWithCommodity {
    /// Decides a sign-in from the rows found under the email and the verdict
    /// on the password.
    pub fn signin_with(rows: Vec<StationWithCommodity>, email: String, verdict: Option<bool>) -> (result:
        Result<StationResponse, StationError>)
        ensures
            reports(result, email@, signin_outcome(rows.deep_view(), verdict)),
    {
        assert(rows.deep_view().len() == rows.len());
        if rows.len() == 0 {
            return Err(StationError::NotFound(email));
        }
        match verdict {
            Some(true) => aggregate_single(rows, email),
            _ => Err(StationError::WrongCredentials("email or password".to_owned())),
        }
    }

    /// Signs a vendor in: checks the password against the hash that the rows
    /// found under the email carry, and rebuilds the vendor from the rows.
    pub fn signin(rows: Vec<StationWithCommodity>, body: StationSigninDto) -> (result: Result<
        StationResponse,
        StationError,
    >)
        ensures
            reports(
                result,
                body.email@,
                signin_outcome(
                    rows.deep_view(),
                    password_verdict(body.password@, stored_hash(rows.deep_view())),
                ),
            ),
    {
        let StationSigninDto { email, password } = body;
        assert(rows.deep_view().len() == rows.len());
        if rows.len() == 0 {
            return Err(StationError::NotFound(email));
        }
        assert(rows.deep_view()[0] == rows[0]@);
        let verdict = match StationWithCommodity::verify_password(
            password.as_str(),
            rows[0].password.as_str(),
        ) {
            Ok(v) => Some(v),
            Err(_) => None,
        };
        StationWithCommodity::signin_with(rows, email, verdict)
    }

    /// The answer to a sign-in for which a token was asked: the token, or
    /// wrong credentials with the reason why none was issued.
    pub fn access_granted(token: Result<String, TokenError>) -> (answer: Result<
        (u16, ApiMessage),
        StationError,
    >)
        ensures
            token matches Ok(t) ==> (answer matches Ok(a) && a.0 == OK && a.1.access_token == t),
            token matches Err(e) ==> (answer matches Err(StationError::WrongCredentials(what))
                && what@ == e.reason()),
    {
        match token {
            Ok(jwt_token) => Ok((OK, ApiMessage { access_token: jwt_token })),
            Err(e) => Err(StationError::WrongCredentials(e.to_string())),
        }
    }

    /// The next step of a registration.
    ///
    /// A registration looks the trimmed email up; refuses a vendor that
    /// exists; has the password hashed; stores the vendor, with the email as
    /// it was submitted, then its first commodity, petrol; and answers with
    /// the new vendor and that commodity.
    pub fn signup(state: SignupState, event: SignupEvent) -> (step: (SignupState, SignupAction))
        ensures
            follows(state, event, step),
    {
        match (state, event) {
            (SignupState::Received(body), SignupEvent::Started) => {
                let email = trim_text(body.email.as_str());
                (SignupState::CheckingEmail(body), SignupAction::LookUpEmail(email))
            },
            (SignupState::CheckingEmail(body), SignupEvent::EmailLookedUp(exists)) => {
                match exists {
                    Some(Some(_)) => (
                        SignupState::Finished,
                        SignupAction::Refuse(StationError::AlreadyExists),
                    ),
                    _ => {
                        let password = body.password.clone();
                        (SignupState::Hashing(body), SignupAction::HashPassword(password))
                    },
                }
            },
            (SignupState::Hashing(body), SignupEvent::PasswordHashed(hashed_password)) => {
                let CreateStationDto {
                    name,
                    address,
                    email,
                    phone,
                    password: _,
                    latitude,
                    longitude,
                    code: _,
                } = body;
                (
                    SignupState::StoringStation,
                    SignupAction::StoreStation(
                        NewStation {
                            name,
                            address,
                            email,
                            phone,
                            password: hashed_password,
                            latitude,
                            longitude,
                        },
                    ),
                )
            },
            (SignupState::StoringStation, SignupEvent::StationStored(new_station)) => {
                let commodity = NewCommodity { name: "petrol".to_owned(), station_id: new_station.id };
                (SignupState::StoringCommodity(new_station), SignupAction::StoreCommodity(commodity))
            },
            (SignupState::StoringCommodity(new_station), SignupEvent::CommodityStored(new_commodity)) => {
                let mut response = StationResponse::from_station(new_station);
                response.commodities.push(CommoditiesResponse::from_commodity(new_commodity));
                assert(response.commodities.deep_view() =~= seq![
                    offering_of_commodity(new_commodity),
                ]);
                (SignupState::Finished, SignupAction::Respond(CREATED, response))
            },
            _ => (SignupState::Finished, SignupAction::OutOfTurn),
        }
    }

    /// Hashes a password for storing, under a fresh random salt and with the
    /// work factor `BCRYPT_COST`. The hash is one that `verify_password`
    /// accepts the password against. Whether a hash is returned lies with the
    /// source of randomness.
    pub fn hash_password(plaintext_password: &str) -> (hashed: Result<String, bcrypt::BcryptError>)
        ensures
            hashed matches Ok(text) ==> password_verdict(plaintext_password@, text@) == Some(true),
            hashed matches Ok(text) ==> text@.len() == 60 && text@.subrange(0, 7) == hash_head(
                BCRYPT_COST,
            ),
    {
        bcrypt_hash(plaintext_password, BCRYPT_COST)
    }

    /// Whether the password is the one that the stored hash was made from.
    pub fn verify_password(plaintext_password: &str, stored_hash: &str) -> (verdict: Result<
        bool,
        bcrypt::BcryptError,
    >)
        ensures
            verdict matches Ok(v) ==> password_verdict(plaintext_password@, stored_hash@) == Some(
                v,
            ),
            verdict is Err ==> password_verdict(plaintext_password@, stored_hash@) is None,
    {
        bcrypt_verify(plaintext_password, stored_hash)
    }
}

} // verus!
