//! Vendor lookup core: rebuilding ranked vendor aggregates from flat join
//! rows, and issuing and checking the session tokens that carry them.
//!
//! - `dto`, `stations`, `commodity`, `registration_code`, `roles`: the data.
//! - `aggregate`: rows to ranked aggregates; `grouping`, `ranking` and
//!   `permutation` state and prove what the rebuilding guarantees.
//! - `distance`: the order of distances.
//! - `claims`, `token`: session claims, their frame, and signed tokens.
//! - `auth`, `authorize_role`: letting requests in and through.
//! - `service`: signing in and registering.
//! - `errors`: failures and their responses.
//! - `validate_boundary`: the service area.
//! - `text`: small text operations.

pub mod aggregate;
pub mod auth;
pub mod authorize_role;
pub mod claims;
pub mod commodity;
pub mod distance;
pub mod dto;
pub mod errors;
pub mod grouping;
pub mod permutation;
pub mod ranking;
pub mod registration_code;
pub mod roles;
pub mod service;
pub mod stations;
pub mod text;
pub mod token;
pub mod validate_boundary;
