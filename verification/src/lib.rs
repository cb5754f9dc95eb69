//! A verified swap-routing engine for an on-ledger exchange aggregator.
//!
//! The crate stores registered multi-hop conversion paths between asset
//! pairs, plans the chained execution of a chosen path as an ordered queue
//! of deferred actions, interprets such a queue against a modeled ledger
//! with balance-difference accounting, and selects the best-return path
//! among registered candidates by dry-running each one through a quote
//! table that stands for the venues' pricing oracles.

pub mod asset;
pub mod error;
pub mod execute;
pub mod helpers;
pub mod ledger;
pub mod operations;
pub mod quotes;
pub mod registry;
pub mod simulate;
