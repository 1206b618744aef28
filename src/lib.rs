//! Selector-based call dispatch for smart contracts, together with a
//! simulated off-chain execution environment (accounts, storage, balance
//! transfers and hashing).
pub mod accounts;
pub mod codec;
pub mod counter;
pub mod dispatch;
pub mod env;
pub mod hashing;
