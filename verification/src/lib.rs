//! Payments engine: per-client account state transitions driven by a stream of
//! deposit, withdrawal, dispute, resolve and chargeback transactions.
use vstd::prelude::*;

pub mod collections;
pub mod decimal;
pub mod engine;
pub mod model;
pub mod report;
pub mod source;
pub mod storage;

verus! {

/// The whole program: reads transactions, runs them through the engine and
/// writes the final balances.
pub struct PaymentEngine;

} // verus!
