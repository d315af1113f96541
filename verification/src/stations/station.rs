//! The stored vendor record.

use vstd::prelude::*;
use crate::claims::Claims;
use crate::errors::StationError;

verus! {

/// A vendor as it is stored.
#[derive(Debug, Clone, PartialEq)]
pub struct Station {
    pub id: u128,
    pub name: String,
    pub address: String,
    pub email: String,
    pub phone: String,
    pub latitude: u64,
    pub longitude: u64,
    pub role: String,
    pub created_at: i64,
    pub updated_at: i64,
}

impl Station {
    /// The vendor that a request asks about: the one in its claims. A request
    /// without claims is turned away as one without a credential.
    pub fn claimed_id(claims: Option<&Claims>) -> (id: Result<u128, StationError>)
        ensures
            claims matches Some(c) ==> (id matches Ok(v) && v == c.station_res.id),
            claims is None ==> (id matches Err(StationError::WrongCredentials(what)) && what@
                == "jwt not present"@),
    {
        match claims {
            Some(c) => Ok(c.station_res.id),
            None => Err(StationError::WrongCredentials("jwt not present".to_owned())),
        }
    }
}

} // verus!
