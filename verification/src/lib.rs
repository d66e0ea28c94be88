//! Over-the-counter swap escrow: a seller deposits one asset, names the asset
//! wanted in return and an optional expiration, and any counterparty can later
//! atomically exchange the asked amount for the escrowed amount.
//!
//! The crate holds the escrow state machine and its ordered, paginated offer
//! store, verified end to end; the host ledger that executes the emitted
//! transfer instructions, and the wire encoding, live outside it.

pub mod asset;
pub mod contract;
pub mod error;
pub mod expiration;
pub mod factory;
pub mod laws;
pub mod msg;
pub mod state;
