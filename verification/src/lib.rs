//! Token metadata resolution: a cache-first, two-pass resolver for on-chain
//! token descriptions, written as a pure decision procedure that a driver
//! feeds with the answers of a metadata store and a chain fetcher.

pub mod address;
pub mod metadata;
pub mod address_set;
pub mod table;
pub mod resolver;
pub mod laws;
pub mod world;
pub mod format;
pub mod models;
pub mod tokens;
