//! Airline on-time statistics: an in-memory record store with
//! de-duplicated airport and carrier views, record queries and projections,
//! and per-carrier delay statistics between two airports.

pub mod airlines;
pub mod connection;
pub mod csv;
pub mod database;
pub mod dedup;
pub mod pair_set;
pub mod query;
pub mod routes;
