//! A verified escrow lifecycle engine for two-party deals, with the stores around it.
//!
//! - `lifecycle`: the state machine on one record, stated as spec functions (`after_*`) and
//!   carried out by the `apply_*` functions.
//! - `store`: the escrow records keyed by identifier; every action is proved to match the
//!   state machine and to keep identifiers unique.
//! - `laws`: properties of the lifecycle that hold for every escrow.
//! - `ids`, `text`, `utils`: identifiers, deposit addresses and text formatting.
//! - `risk`, `reputation`, `identity`, `wallet`: the assessment, reputation, profile and
//!   balance stores that the engine's callers work with.
//! - `gateway`: the request and response shapes of the HTTP gateway.

pub mod gateway;
pub mod identity;
pub mod ids;
pub mod laws;
pub mod lifecycle;
pub mod reputation;
pub mod risk;
pub mod store;
pub mod text;
pub mod types;
pub mod utils;
pub mod wallet;
