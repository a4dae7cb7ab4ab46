//! A ledger of many assets, with imbalance accounting.
//!
//! For each asset the ledger keeps a total issuance and a count of the
//! accounts that hold some of it, and for each account what it holds. Its
//! operations create assets, issue and burn amounts, and move amounts
//! between accounts; each checks first and writes only when nothing can
//! fail any more, so that a failed operation leaves no trace.
//!
//! A balance can also be changed without the total issuance. Such a change
//! hands out an imbalance, a value that stands for the difference between
//! the sum of the balances and the total issuance. An imbalance cannot be
//! copied; it is retired by being set against one of the opposite kind or by
//! being finalized into the total issuance.
//!
//! - [`amount`]: 256-bit amounts and their arithmetic.
//! - [`asset`]: the records of the ledger and what it reports.
//! - [`consequence`]: the outcomes of checks, and the errors.
//! - [`engine`]: the rules of each change, on the records alone.
//! - [`ledger`]: the mathematical model of a ledger and of each change.
//! - [`store`]: the balance store.
//! - [`pallet`]: the ledger itself.
//! - [`balanced`]: the capabilities of a ledger.
//! - [`imbalance`]: imbalances.
//! - [`laws`]: what holds of a ledger whatever is done with it.

pub mod amount;
pub mod asset;
pub mod balanced;
pub mod consequence;
pub mod engine;
pub mod imbalance;
pub mod laws;
pub mod ledger;
pub mod pallet;
pub mod store;
