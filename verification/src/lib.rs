//! Core of a personal-finance ledger with device-pairing synchronization.
//!
//! The library holds the verified logic: the wallet and transaction stores
//! with their balance invariants, the item catalog, the pairing-session
//! registry (PIN and token lifecycle), the conflict detector that reconciles
//! an incoming transaction batch against a ledger snapshot, the pending
//! approval store, and the dual-document atomic commit protocol.
//!
//! Calls into outside crates (randomness, hashing, the clock, the atomic
//! file replace) stand behind small trusted wrappers; everything around
//! them is verified.

pub mod commit;
pub mod enums;
pub mod item_limits;
pub mod items;
pub mod pagination;
pub mod persist;
pub mod pipeline;
pub mod server;
pub mod similarity;
pub mod strnum;
pub mod sync_models;
pub mod sync_state;
pub mod transaction;
pub mod transaction_items;
pub mod trusted;
pub mod validator;
pub mod views;
pub mod wallet;
pub mod wallet_sync;
