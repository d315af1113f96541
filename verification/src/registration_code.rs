//! Registration codes handed to vendors.

use vstd::prelude::*;

verus! {

/// A code that lets a vendor register.
#[derive(Debug, Clone, PartialEq)]
pub struct RegistrationCode {
    pub id: u128,
    pub station_id: u128,
    pub code: String,
    pub is_valid: bool,
    pub created_at: i64,
}

} // verus!
