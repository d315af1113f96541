//! Reading the bearer credential of a request and checking its token.

use vstd::prelude::*;
use vstd::string::*;
use crate::claims::{EncodedClaims, Frame};
use crate::errors::StationError;
use crate::text::{has_at, stands_at, trim_from, trimmed};
use crate::token::{check_outcome, signed_payload, unix_time, TokenError, TokenService};

verus! {

/// The scheme that a bearer credential starts with.
pub open spec fn scheme() -> Seq<char> {
    "Bearer "@
}

/// The token of an authorization header: what follows the scheme, without
/// blanks around it. A header that does not start with the scheme has none.
pub open spec fn bearer_token(header: Seq<char>) -> Option<Seq<char>> {
    if has_at(header, 0, scheme()) {
        Some(trimmed(header.skip(scheme().len() as int)))
    } else {
        None
    }
}

/// Reads the token of an authorization header.
pub fn read_bearer(header: &str) -> (token: Option<String>)
    ensures
        match token {
            Some(t) => bearer_token(header@) == Some(t@),
            None => bearer_token(header@) is None,
        },
{
    let length = header.unicode_len();
    let scheme = "Bearer ";
    if !stands_at(header, length, 0, scheme) {
        return None;
    }
    Some(trim_from(header, length, scheme.unicode_len()))
}

/// The model of a header that may be absent.
pub open spec fn header_text(auth_header: Option<&str>) -> Option<Seq<char>> {
    match auth_header {
        Some(h) => Some(h@),
        None => None,
    }
}

/// What a request with this authorization header is known by at `now`, given
/// the payload that the signature check hands back for its token.
pub open spec fn authorized(header: Option<Seq<char>>, secret: Seq<char>, now: u64) -> Result<
    Frame,
    Seq<char>,
> {
    match header {
        None => Err("jwt not present"@),
        Some(text) => match bearer_token(text) {
            None => Err("jwt not present"@),
            Some(token) => match check_outcome(signed_payload(token, secret), now) {
                Ok(claims) => Ok(claims),
                Err(_) => Err("token"@),
            },
        },
    }
}

/// The model of what `authorize` returns: the claims, or what was wrong with
/// the credential.
pub open spec fn authorize_result(result: Result<EncodedClaims, StationError>) -> Option<
    Result<Frame, Seq<char>>,
> {
    match result {
        Ok(claims) => Some(Ok(claims@)),
        Err(StationError::WrongCredentials(what)) => Some(Err(what@)),
        Err(_) => None,
    }
}

/// What a checked token comes to for the request: its claims, or wrong
/// credentials, whatever the check found wrong.
pub fn accept_checked(checked: Result<EncodedClaims, TokenError>) -> (admitted: Result<
    EncodedClaims,
    StationError,
>)
    ensures
        match checked {
            Ok(claims) => admitted == Ok::<EncodedClaims, StationError>(claims),
            Err(_) => admitted matches Err(StationError::WrongCredentials(what)) && what@
                == "token"@,
        },
{
    match checked {
        Ok(claims) => Ok(claims),
        Err(_) => Err(StationError::WrongCredentials("token".to_owned())),
    }
}

/// Lets a request in at time `now` by its authorization header: the header
/// must be present and start with the scheme, and its token must pass the
/// check of the token service. Every failure is reported as wrong
/// credentials.
pub fn authorize_at(auth_header: Option<&str>, secret: &str, now: u64) -> (admitted: Result<
    EncodedClaims,
    StationError,
>)
    ensures
        authorize_result(admitted) == Some(authorized(header_text(auth_header), secret@, now)),
{
    let token = match auth_header {
        Some(value) => read_bearer(value),
        None => None,
    };
    match token {
        Some(access_token) => {
            let token_service = TokenService::new(secret);
            accept_checked(token_service.decode_at(access_token.as_str(), now))
        },
        None => Err(StationError::WrongCredentials("jwt not present".to_owned())),
    }
}

/// Lets a request in by its authorization header, at the current time.
pub fn authorize(auth_header: Option<&str>, secret: &str) -> (admitted: Result<
    EncodedClaims,
    StationError,
>)
    ensures
        exists|now: u64|
            now <= i64::MAX && authorize_result(admitted) == Some(
                #[trigger] authorized(header_text(auth_header), secret@, now),
            ),
{
    let now = unix_time() as u64;
    authorize_at(auth_header, secret, now)
}

} // verus!
