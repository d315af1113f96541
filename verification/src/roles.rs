//! The role tags that a vendor record can carry.

use vstd::prelude::*;

verus! {

/// The three role tags, by name.
#[derive(Debug, Clone, PartialEq)]
pub struct UserRole {
    pub admin: String,
    pub station: String,
    pub user: String,
}

impl UserRole {
    /// The role tags as they are stored with a vendor record.
    pub fn new() -> (roles: Self)
        ensures
            roles.admin@ == "admin"@,
            roles.station@ == "station"@,
            roles.user@ == "user"@,
    {
        UserRole {
            admin: "admin".to_owned(),
            station: "station".to_owned(),
            user: "user".to_owned(),
        }
    }
}

} // verus!
