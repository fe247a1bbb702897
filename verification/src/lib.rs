//! A capped-supply token ledger: account balances, token metadata, and a
//! single-authority minting operation, with conservation of total supply
//! (the sum of all balances always equals the recorded total supply),
//! cap enforcement, and overflow-safe arithmetic.
//!
//! The ledger takes already-validated account identifiers; the hosting
//! environment is expected to validate raw addresses and to persist the
//! [`state::Store`] between calls.

pub mod contract;
pub mod error;
pub mod msg;
pub mod state;
