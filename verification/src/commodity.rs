//! Stored commodities and their update.

use vstd::prelude::*;
use crate::errors::CommodityError;

verus! {

/// A commodity as it is stored.
#[derive(Debug, Clone, PartialEq)]
pub struct Commodity {
    pub id: u128,
    pub name: String,
    pub price: i32,
    pub station_id: u128,
    pub is_available: bool,
    pub created_at: i64,
    pub updated_at: i64,
}

/// The new price and availability of a commodity.
#[derive(Debug, Clone, PartialEq)]
pub struct UpdateCommodityDto {
    pub price: i32,
    pub is_available: Option<bool>,
}

/// A commodity after its update.
#[derive(Debug, Clone, PartialEq)]
pub struct UpdateCommodityResponse {
    pub id: u128,
    pub price: i32,
    pub is_available: bool,
    pub updated_at: i64,
}

/// HTTP status of success.
pub const OK: u16 = 200;

impl UpdateCommodityDto {
    /// The availability to store: unavailable unless the update says
    /// otherwise.
    pub fn availability(&self) -> (available: bool)
        ensures
            available == (self.is_available == Some(true)),
    {
        match self.is_available {
            Some(available) => available,
            None => false,
        }
    }
}

impl Commodity {
    /// The answer to an update, given what the store returned for the
    /// commodity `id`: the updated commodity, or `NotFound` naming `id` where
    /// the store holds no such commodity.
    pub fn update_commodity(updated: Option<UpdateCommodityResponse>, id: String) -> (answer: Result<
        (u16, UpdateCommodityResponse),
        CommodityError,
    >)
        ensures
            updated matches Some(u) ==> (answer matches Ok(a) && a.0 == OK && a.1 == u),
            updated is None ==> (answer matches Err(CommodityError::NotFound(what)) && what@
                == id@),
    {
        match updated {
            Some(updated_commodity) => Ok((OK, updated_commodity)),
            None => Err(CommodityError::NotFound(id)),
        }
    }
}

} // verus!
