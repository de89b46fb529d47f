//! A batch workload of peer-to-peer balance transfers against a shared,
//! in-memory ledger of accounts.
//!
//! The ledger maps account identifiers to balance cells; its shape is fixed
//! at construction and only balances mutate thereafter. The transfer engine
//! commits one transfer between two distinct accounts, debiting
//! `amount + fee` from the source and crediting `amount` to the destination
//! (the fee is destroyed value by design). The scheduler applies each batch's
//! records strictly in order, reporting per-record failures without aborting
//! the batch. A concurrent dispatcher around this library orders lock
//! acquisition by the canonical pair order proved here, which rules out
//! circular wait.

pub mod engine;
pub mod errors;
pub mod laws;
pub mod ledger;
pub mod sums;
pub mod system;
