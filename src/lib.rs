//! A custodial BTC staking pool: per-address custody sub-accounts, signed and
//! nonce-bound staking actions, and a time-locked FIFO unbonding queue.
pub mod address;
pub mod errors;
pub mod signature;
pub mod state;
pub mod types;
pub mod workflows;
pub mod laws;
