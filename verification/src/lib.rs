//! A verified two-party atomic-swap escrow core.
//!
//! A maker deposits tokens of one asset into a vault controlled by an
//! escrow record and names the amount of a second asset they want in
//! return.  A taker completes the swap by paying that amount, or the
//! maker cancels and is refunded.  Every state transition is specified
//! against a mathematical model of the ledger and the record store, and
//! the general escrow laws are proved as lemmas.

pub mod laws;
pub mod machine;
pub mod states;
pub mod store;
