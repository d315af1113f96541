//! The guard that lets a request through by the role in its claims.

use vstd::prelude::*;
use crate::claims::Claims;
use crate::errors::{FORBIDDEN, UNAUTHORIZED};

verus! {

/// Why the guard turned a request away.
#[derive(Debug, PartialEq, Eq, Clone, Copy)]
pub enum AccessError {
    /// The request carries no claims.
    Unauthenticated,
    /// The role in the claims is not among the required ones.
    Forbidden,
}

impl AccessError {
    /// The status that the refusal is reported with.
    pub open spec fn status(&self) -> u16 {
        match self {
            AccessError::Unauthenticated => UNAUTHORIZED,
            AccessError::Forbidden => FORBIDDEN,
        }
    }

    /// The status that the refusal is reported with.
    pub fn status_code(&self) -> (code: u16)
        ensures
            code == self.status(),
    {
        match self {
            AccessError::Unauthenticated => UNAUTHORIZED,
            AccessError::Forbidden => FORBIDDEN,
        }
    }
}

/// Whether the role is one of the required ones.
pub open spec fn role_allowed(required_role: Seq<String>, role: Seq<char>) -> bool {
    exists|k: int| 0 <= k < required_role.len() && (#[trigger] required_role[k])@ == role
}

/// Lets a request through when the role of the vendor in its claims is one of
/// the required roles. A request without claims is unauthenticated; one whose
/// role is not required is forbidden.
pub fn authorize_role(required_role: &Vec<String>, claims: Option<&Claims>) -> (passed: Result<
    (),
    AccessError,
>)
    ensures
        claims is None ==> passed == Err::<(), AccessError>(AccessError::Unauthenticated),
        claims matches Some(user) ==> passed == if role_allowed(
            required_role@,
            user.station_res.role@,
        ) {
            Ok::<(), AccessError>(())
        } else {
            Err::<(), AccessError>(AccessError::Forbidden)
        },
{
    let user = match claims {
        Some(user) => user,
        None => {
            return Err(AccessError::Unauthenticated);
        },
    };
    let mut k: usize = 0;
    while k < required_role.len()
        invariant
            k <= required_role.len(),
            claims == Some(user),
            forall|j: int| 0 <= j < k ==> (#[trigger] required_role[j])@ != user.station_res.role@,
        decreases required_role.len() - k,
    {
        if required_role[k] == user.station_res.role {
            return Ok(());
        }
        k += 1;
    }
    Err(AccessError::Forbidden)
}

} // verus!
