//! Vendor records and the queries about them.

pub mod dto;
pub mod station;
