//! Settlement core of a fixed-price NFT marketplace.
//!
//! The library models the marketplace state explicitly and verifies the
//! listing / buy / cancel state machine: authorization of listers, time-window
//! enforcement, exactly-once consumption of listings, and the derivation of
//! the asset-transfer effects that the host executes atomically.

pub mod context;
pub mod contract;
pub mod error;
pub mod execute;
pub mod keys;
pub mod laws;
pub mod msg;
pub mod query;
pub mod response;
pub mod state;
pub mod structs;
pub mod util;
