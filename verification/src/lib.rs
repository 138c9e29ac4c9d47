//! An in-memory ledger: accounts with non-negative integer balances (in minor
//! currency units) and a bank that registers accounts and moves money between
//! them with deposits, withdrawals and atomic transfers.

pub mod account;
pub mod bank;
pub mod errors;
pub mod render;
