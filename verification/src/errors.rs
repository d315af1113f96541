//! The failures that handlers report, and the response each one becomes.

use vstd::prelude::*;
use vstd::string::*;

verus! {

/// `sqlx::Error`: a failure of the persistence layer. The library carries it
/// through unread.
#[verifier::external_type_specification]
#[verifier::external_body]
pub struct ExDatabaseFailure(sqlx::Error);

/// The body of an error response.
#[derive(Debug, Clone, PartialEq)]
pub struct ApiError {
    pub message: String,
}

/// A failure while serving a request about vendors.
#[derive(Debug)]
pub enum StationError {
    /// A credential was missing or wrong; the text says which.
    WrongCredentials(String),
    /// The vendor is already registered.
    AlreadyExists,
    /// No vendor answers to the identifier.
    NotFound(String),
    /// The persistence layer failed.
    DatabaseError(sqlx::Error),
}

/// A failure while serving a request about commodities.
#[derive(Debug)]
pub enum CommodityError {
    /// A credential was missing or wrong; the text says which.
    WrongCredentials(String),
    /// The commodity is already registered.
    AlreadyExists,
    /// Nothing answers to the identifier.
    NotFound(String),
    /// The persistence layer failed.
    DatabaseError(sqlx::Error),
}

/// HTTP status of a missing resource.
pub const NOT_FOUND: u16 = 404;

/// HTTP status of a conflict with what is stored.
pub const CONFLICT: u16 = 409;

/// HTTP status of a request without a valid credential.
pub const UNAUTHORIZED: u16 = 401;

/// HTTP status of a credential that lacks the role.
pub const FORBIDDEN: u16 = 403;

/// HTTP status of a failure on the server's side.
pub const INTERNAL_SERVER_ERROR: u16 = 500;

fn not_found_message(identifier: &String) -> (message: String)
    ensures
        message@ == "Station with identifier "@ + identifier@ + " not found."@,
{
    "Station with identifier ".to_owned().concat(identifier.as_str()).concat(" not found.")
}

impl StationError {
    /// The status that the failure is reported with.
    pub open spec fn status(&self) -> u16 {
        match self {
            StationError::NotFound(_) => NOT_FOUND,
            StationError::AlreadyExists => CONFLICT,
            StationError::WrongCredentials(_) => UNAUTHORIZED,
            StationError::DatabaseError(_) => INTERNAL_SERVER_ERROR,
        }
    }

    /// The message that the client is shown. A failure of the persistence
    /// layer is not described to the client.
    pub open spec fn client_message(&self) -> Seq<char> {
        match self {
            StationError::NotFound(identifier) => "Station with identifier "@ + identifier@
                + " not found."@,
            StationError::AlreadyExists => "Station already exists."@,
            StationError::WrongCredentials(what) => "Invalid: "@ + what@ + " "@,
            StationError::DatabaseError(_) => "Internal server error."@,
        }
    }

    /// The status and body of the response that reports the failure.
    pub fn into_response(self) -> (response: (u16, ApiError))
        ensures
            response.0 == self.status(),
            response.1.message@ == self.client_message(),
    {
        let (status_code, client_message) = match self {
            StationError::NotFound(id_or_email) => (NOT_FOUND, not_found_message(&id_or_email)),
            StationError::AlreadyExists => (CONFLICT, "Station already exists.".to_owned()),
            StationError::WrongCredentials(message) => (
                UNAUTHORIZED,
                "Invalid: ".to_owned().concat(message.as_str()).concat(" "),
            ),
            StationError::DatabaseError(_) => (
                INTERNAL_SERVER_ERROR,
                "Internal server error.".to_owned(),
            ),
        };
        (status_code, ApiError { message: client_message })
    }
}

impl CommodityError {
    /// The status that the failure is reported with.
    pub open spec fn status(&self) -> u16 {
        match self {
            CommodityError::NotFound(_) => NOT_FOUND,
            CommodityError::AlreadyExists => CONFLICT,
            CommodityError::WrongCredentials(_) => UNAUTHORIZED,
            CommodityError::DatabaseError(_) => INTERNAL_SERVER_ERROR,
        }
    }

    /// The message that the client is shown. A failure of the persistence
    /// layer is not described to the client.
    pub open spec fn client_message(&self) -> Seq<char> {
        match self {
            CommodityError::NotFound(identifier) => "Station with identifier "@ + identifier@
                + " not found."@,
            CommodityError::AlreadyExists => "Commodity already exists."@,
            CommodityError::WrongCredentials(what) => what@,
            CommodityError::DatabaseError(_) => "Internal server error."@,
        }
    }

    /// The status and body of the response that reports the failure.
    pub fn into_response(self) -> (response: (u16, ApiError))
        ensures
            response.0 == self.status(),
            response.1.message@ == self.client_message(),
    {
        let (status_code, client_message) = match self {
            CommodityError::NotFound(name) => (NOT_FOUND, not_found_message(&name)),
            CommodityError::WrongCredentials(message) => (UNAUTHORIZED, message),
            CommodityError::AlreadyExists => (CONFLICT, "Commodity already exists.".to_owned()),
            CommodityError::DatabaseError(_) => (
                INTERNAL_SERVER_ERROR,
                "Internal server error.".to_owned(),
            ),
        };
        (status_code, ApiError { message: client_message })
    }
}

} // verus!
