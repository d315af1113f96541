//! Issuing and checking session tokens.
//!
//! A token is a compact HS256-signed structure whose payload is the claims
//! frame of `crate::claims`. Signing and signature checking are done by the
//! `jsonwebtoken` crate; the claims, their lifetime and their expiry are
//! decided here. Only a token that opens again to its claims is issued. A
//! token is expired once the current time is past its expiry: at the very
//! second of its expiry it is still accepted.

use vstd::prelude::*;
use crate::claims::{
    frame, parse_frame, read_frame, write_frame, EncodedClaims, Frame, TOKEN_LIFETIME,
};

verus! {

/// Why a token could not be issued or was not accepted.
#[derive(Debug, PartialEq, Eq, Clone, Copy)]
pub enum TokenError {
    /// The signature check does not accept the token under the secret.
    InvalidSignature,
    /// The token's expiry has passed.
    Expired,
    /// The claims could not be signed.
    SigningError,
    /// The token is validly signed but its payload is not a claims frame.
    MalformedClaims,
}

impl TokenError {
    /// The failure in words.
    pub open spec fn reason(&self) -> Seq<char> {
        match self {
            TokenError::InvalidSignature => "invalid signature"@,
            TokenError::Expired => "token expired"@,
            TokenError::SigningError => "token could not be signed"@,
            TokenError::MalformedClaims => "malformed claims"@,
        }
    }

    /// The failure in words.
    pub fn to_string(&self) -> (text: String)
        ensures
            text@ == self.reason(),
    {
        match self {
            TokenError::InvalidSignature => "invalid signature".to_owned(),
            TokenError::Expired => "token expired".to_owned(),
            TokenError::SigningError => "token could not be signed".to_owned(),
            TokenError::MalformedClaims => "malformed claims".to_owned(),
        }
    }
}

/// The answer to a successful sign-in.
#[derive(Debug, Clone, PartialEq)]
pub struct ApiMessage {
    pub access_token: String,
}

/// Issues and checks tokens under one shared secret.
pub struct TokenService {
    secret: String,
}

/// The token that signing the payload under the secret yields, or `None`
/// where signing fails.
pub uninterp spec fn signed_token(payload: Seq<char>, secret: Seq<char>) -> Option<Seq<char>>;

/// The payload of the token, where the signature check accepts the token
/// under the secret, else `None`.
pub uninterp spec fn signed_payload(token: Seq<char>, secret: Seq<char>) -> Option<Seq<char>>;

/// `jsonwebtoken::encode` with an HS256 header, the payload taken as raw JSON
/// and the secret as the key's bytes. The contract names the result: under
/// the provider that the crate is built with, the only one that this library
/// lets it use, the call is a function of the payload and the secret alone.
/// It returns `None` where the payload is not JSON or the crate reports an
/// error.
#[verifier::external_body]
fn sign_payload(payload: &str, secret: &str) -> (token: Option<String>)
    ensures
        token.is_some() == signed_token(payload@, secret@).is_some(),
        token matches Some(t) ==> signed_token(payload@, secret@) == Some(t@),
{
    let header = jsonwebtoken::Header::new(jsonwebtoken::Algorithm::HS256);
    let key = jsonwebtoken::EncodingKey::from_secret(secret.as_bytes());
    match serde_json::value::RawValue::from_string(payload.to_owned()) {
        Ok(claims) => jsonwebtoken::encode(&header, &claims, &key).ok(),
        Err(_) => None,
    }
}

/// `jsonwebtoken::decode` for HS256 with the secret as the key's bytes, the
/// payload handed back as raw JSON. The checks of expiry, audience and
/// required claims are switched off, so that the call is, under the provider
/// that the crate is built with, a function of the token and the secret
/// alone, which the contract names. It returns `None` for whatever the crate
/// rejects: a text that is not a token, another algorithm, a signature that
/// does not match, a payload that it cannot read as a JSON object of claims.
#[verifier::external_body]
fn open_token(token: &str, secret: &str) -> (payload: Option<String>)
    ensures
        payload.is_some() == signed_payload(token@, secret@).is_some(),
        payload matches Some(p) ==> signed_payload(token@, secret@) == Some(p@),
{
    let mut validation = jsonwebtoken::Validation::new(jsonwebtoken::Algorithm::HS256);
    validation.validate_exp = false;
    validation.validate_aud = false;
    validation.required_spec_claims.clear();
    let key = jsonwebtoken::DecodingKey::from_secret(secret.as_bytes());
    match jsonwebtoken::decode::<Box<serde_json::value::RawValue>>(token, &key, &validation) {
        Ok(data) => Some(data.claims.get().to_owned()),
        Err(_) => None,
    }
}

/// `chrono::Utc::now`, taken as seconds since the Unix epoch with
/// `DateTime::timestamp`. The crate reads the system clock as a duration since
/// the epoch and does not return where the clock stands before it, so the
/// seconds are not negative.
#[verifier::external_body]
pub(crate) fn unix_time() -> (now: i64)
    ensures
        now >= 0,
{
    chrono::Utc::now().timestamp()
}

/// The expiry of claims issued at `iat`, if it fits.
pub open spec fn expiry_of(iat: u64) -> Option<u64> {
    if iat + TOKEN_LIFETIME <= u64::MAX {
        Some((iat + TOKEN_LIFETIME) as u64)
    } else {
        None
    }
}

/// The claims issued at `now` for a vendor snapshot.
pub open spec fn issued_claims(station_res: Seq<char>, now: u64) -> Frame {
    Frame { exp: (now + TOKEN_LIFETIME) as u64, iat: now, station_res }
}

/// What opening a token that signing yielded hands back, where signing
/// yielded one.
pub open spec fn reopened(signed: Option<Seq<char>>, secret: Seq<char>) -> Option<Seq<char>> {
    match signed {
        Some(token) => signed_payload(token, secret),
        None => None,
    }
}

/// What issuing at `now` comes to, given the payload that was signed, what
/// signing yielded and what opening that token again handed back: the token
/// is issued where it opens to the very payload and the expiry fits; all
/// else is a signing error.
pub open spec fn issue_outcome(
    now: u64,
    payload: Seq<char>,
    signed: Option<Seq<char>>,
    opened: Option<Seq<char>>,
) -> Result<Seq<char>, TokenError> {
    match signed {
        Some(token) if expiry_of(now) is Some && opened == Some(payload) => Ok(token),
        _ => Err(TokenError::SigningError),
    }
}

/// The model of text that may be absent.
pub open spec fn text_of(text: Option<String>) -> Option<Seq<char>> {
    match text {
        Some(t) => Some(t@),
        None => None,
    }
}

/// What checking at `now` comes to, given the payload that the signature
/// check hands back.
pub open spec fn check_outcome(payload: Option<Seq<char>>, now: u64) -> Result<Frame, TokenError> {
    match payload {
        None => Err(TokenError::InvalidSignature),
        Some(text) => match parse_frame(text) {
            None => Err(TokenError::MalformedClaims),
            Some(claims) => if claims.exp < now {
                Err(TokenError::Expired)
            } else {
                Ok(claims)
            },
        },
    }
}

/// The model of a result that holds a token.
pub open spec fn token_result(result: Result<String, TokenError>) -> Result<
    Seq<char>,
    TokenError,
> {
    match result {
        Ok(token) => Ok(token@),
        Err(e) => Err(e),
    }
}

/// The model of a result that holds encoded claims.
pub open spec fn claims_result(result: Result<EncodedClaims, TokenError>) -> Result<
    Frame,
    TokenError,
> {
    match result {
        Ok(claims) => Ok(claims@),
        Err(e) => Err(e),
    }
}

/// The issued token, given the payload of the claims issued at `now`, what
/// signing it yielded and what opening the token again handed back: the
/// token, where it opens to the very payload and the expiry of the claims
/// fits 64 bits, else a signing error.
pub fn issue_signed(
    now: u64,
    payload: &String,
    signed: Option<String>,
    opened: Option<String>,
) -> (token: Result<String, TokenError>)
    ensures
        token_result(token) == issue_outcome(now, payload@, text_of(signed), text_of(opened)),
{
    let token = match signed {
        Some(token) => token,
        None => {
            return Err(TokenError::SigningError);
        },
    };
    let opens = match opened {
        Some(text) => text == *payload,
        None => false,
    };
    if opens && now <= u64::MAX - TOKEN_LIFETIME {
        Ok(token)
    } else {
        Err(TokenError::SigningError)
    }
}

/// Decides on the claims of a token from the payload that the signature check
/// handed back: no payload means no valid signature; a payload that is not a
/// claims frame is malformed; claims whose expiry lies before `now` are
/// expired; all others are accepted.
pub fn check_payload(payload: Option<String>, now: u64) -> (checked: Result<
    EncodedClaims,
    TokenError,
>)
    ensures
        claims_result(checked) == check_outcome(text_of(payload), now),
{
    match payload {
        None => Err(TokenError::InvalidSignature),
        Some(text) => match read_frame(text.as_str()) {
            None => Err(TokenError::MalformedClaims),
            Some(claims) => if claims.exp < now {
                Err(TokenError::Expired)
            } else {
                Ok(claims)
            },
        },
    }
}

impl TokenService {
    /// The secret that tokens are signed and checked under.
    pub closed spec fn secret(&self) -> Seq<char> {
        self.secret@
    }

    /// A service for the secret.
    pub fn new(secret: &str) -> (service: Self)
        ensures
            service.secret() == secret@,
    {
        TokenService { secret: secret.to_owned() }
    }

    /// Issues, at time `now`, a token for the vendor snapshot: the signed
    /// frame of claims that are issued at `now` and expire 24 hours later.
    /// Only a token that opens again under the secret to that very frame is
    /// issued. Fails with `SigningError` where the expiry does not fit 64
    /// bits, where signing fails, as it does for a frame that is not JSON, and
    /// where the token does not open to the frame, as can happen with a
    /// snapshot that is not one JSON value.
    pub fn create_token_at(&self, station_res: &str, now: u64) -> (token: Result<
        String,
        TokenError,
    >)
        ensures
            token_result(token) == issue_outcome(
                now,
                frame(issued_claims(station_res@, now)),
                signed_token(frame(issued_claims(station_res@, now)), self.secret()),
                reopened(
                    signed_token(frame(issued_claims(station_res@, now)), self.secret()),
                    self.secret(),
                ),
            ),
            token matches Ok(t) ==> signed_payload(t@, self.secret()) == Some(
                frame(issued_claims(station_res@, now)),
            ),
    {
        if now > u64::MAX - TOKEN_LIFETIME {
            return Err(TokenError::SigningError);
        }
        let payload = write_frame(now + TOKEN_LIFETIME, now, station_res);
        let signed = sign_payload(payload.as_str(), self.secret.as_str());
        let opened = match &signed {
            Some(token) => open_token(token.as_str(), self.secret.as_str()),
            None => None,
        };
        issue_signed(now, &payload, signed, opened)
    }

    /// Issues a token for the vendor snapshot at the current time: it fails
    /// only where signing fails or the token does not open to its claims.
    pub fn create_token(&self, station_res: &str) -> (token: Result<String, TokenError>)
        ensures
            exists|now: u64|
                now <= i64::MAX && token_result(token) == #[trigger] issue_outcome(
                    now,
                    frame(issued_claims(station_res@, now)),
                    signed_token(frame(issued_claims(station_res@, now)), self.secret()),
                    reopened(
                        signed_token(frame(issued_claims(station_res@, now)), self.secret()),
                        self.secret(),
                    ),
                ) && (token matches Ok(t) ==> signed_payload(t@, self.secret()) == Some(
                    frame(issued_claims(station_res@, now)),
                )),
    {
        let now = unix_time() as u64;
        self.create_token_at(station_res, now)
    }

    /// Checks a token at time `now`: its signature under the secret, that its
    /// payload is a claims frame, and that its expiry has not passed.
    pub fn decode_at(&self, token: &str, now: u64) -> (claims: Result<EncodedClaims, TokenError>)
        ensures
            claims_result(claims) == check_outcome(signed_payload(token@, self.secret()), now),
    {
        check_payload(open_token(token, self.secret.as_str()), now)
    }

    /// Checks a token at the current time.
    pub fn decode(&self, token: String) -> (claims: Result<EncodedClaims, TokenError>)
        ensures
            exists|now: u64|
                now <= i64::MAX && claims_result(claims) == #[trigger] check_outcome(
                    signed_payload(token@, self.secret()),
                    now,
                ),
    {
        let now = unix_time() as u64;
        self.decode_at(token.as_str(), now)
    }
}

/// Claims whose frame the signature check hands back are accepted, unchanged,
/// up to the second of their expiry, and expired once it has passed.
pub proof fn lemma_checked_by_expiry(claims: Frame, at: u64)
    ensures
        check_outcome(Some(frame(claims)), at) == if claims.exp < at {
            Err::<Frame, TokenError>(TokenError::Expired)
        } else {
            Ok::<Frame, TokenError>(claims)
        },
{
    crate::claims::lemma_frame_round_trip(claims);
}

/// A token that opens to the frame of claims issued at `now`, as every token
/// that `create_token_at` issues does, is accepted with exactly those claims
/// up to the second of their expiry, which lies exactly 24 hours after their
/// issue, and is expired from then on.
pub proof fn lemma_issued_token_checked(
    token: Seq<char>,
    secret: Seq<char>,
    station_res: Seq<char>,
    now: u64,
    at: u64,
)
    requires
        expiry_of(now) is Some,
        signed_payload(token, secret) == Some(frame(issued_claims(station_res, now))),
    ensures
        check_outcome(signed_payload(token, secret), at) == if at <= now + 86400 {
            Ok::<Frame, TokenError>(issued_claims(station_res, now))
        } else {
            Err::<Frame, TokenError>(TokenError::Expired)
        },
        issued_claims(station_res, now).station_res == station_res,
        issued_claims(station_res, now).iat == now,
        issued_claims(station_res, now).exp - issued_claims(station_res, now).iat == 86400,
{
    lemma_issued_claims_checked(station_res, now, at);
}

/// Claims issued at `now` expire exactly 24 hours later. When the signature
/// check hands their frame back, they are accepted, unchanged, up to the
/// second of their expiry, and expired from then on.
pub proof fn lemma_issued_claims_checked(station_res: Seq<char>, now: u64, at: u64)
    requires
        expiry_of(now) is Some,
    ensures
        issued_claims(station_res, now).exp - issued_claims(station_res, now).iat == 86400,
        at <= now + 86400 ==> check_outcome(Some(frame(issued_claims(station_res, now))), at)
            == Ok::<Frame, TokenError>(issued_claims(station_res, now)),
        at > now + 86400 ==> check_outcome(Some(frame(issued_claims(station_res, now))), at)
            == Err::<Frame, TokenError>(TokenError::Expired),
{
    crate::claims::lemma_frame_round_trip(issued_claims(station_res, now));
}

} // verus!
