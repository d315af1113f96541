//! The service area.

use vstd::prelude::*;
use crate::distance::{is_number, rank};
use crate::errors::StationError;

verus! {

/// Bits of the southern bound, 8.25 degrees.
pub const MIN_LAT: u64 = 0x4020_8000_0000_0000;

/// Bits of the northern bound, 9.30 degrees.
pub const MAX_LAT: u64 = 0x4022_9999_9999_999A;

/// Bits of the western bound, 6.75 degrees.
pub const MIN_LON: u64 = 0x401B_0000_0000_0000;

/// Bits of the eastern bound, 7.75 degrees.
pub const MAX_LON: u64 = 0x401F_0000_0000_0000;

/// Whether the point lies in the service area, bounds included. The
/// coordinates are the bits of doubles, in degrees.
pub open spec fn in_service_area(lat: u64, lon: u64) -> bool {
    &&& is_number(lat) && rank(MIN_LAT) <= rank(lat) <= rank(MAX_LAT)
    &&& is_number(lon) && rank(MIN_LON) <= rank(lon) <= rank(MAX_LON)
}

/// Accepts a point in the service area and turns any other away.
pub fn validate_abuja_bounds(lat: u64, lon: u64) -> (checked: Result<(), StationError>)
    ensures
        in_service_area(lat, lon) ==> checked is Ok,
        !in_service_area(lat, lon) ==> (checked matches Err(
            StationError::WrongCredentials(what),
        ) && what@ == "Possibly outside service area"@),
{
    if lat >= MIN_LAT && lat <= MAX_LAT && lon >= MIN_LON && lon <= MAX_LON {
        Ok(())
    } else {
        Err(StationError::WrongCredentials("Possibly outside service area".to_owned()))
    }
}

} // verus!
