//! Tax-lot accounting for bitcoin holdings and reconciliation of payment
//! requests against payments seen on chain.
//!
//! Satoshi amounts are `u64`. Prices are whole cents per bitcoin. Every
//! product of an amount and a price is kept exactly, as a count of
//! hundred-millionths of a cent, and is rounded to cents only where a report
//! is drawn up.

pub mod config;
pub mod costbasis;
pub mod csvout;
pub mod dates;
pub mod error;
pub mod invoice;
pub mod lots;
pub mod models;
pub mod requests;
pub mod sync;
pub mod tax;
pub mod text;
pub mod wallet;
pub mod watcher;
