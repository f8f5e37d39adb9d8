//! A pooled-deposit accounting ledger.
//!
//! Participants ("farmers") deposit funds into a shared pool, a privileged
//! operator injects reward amounts, and participants withdraw their principal
//! plus a reward share proportional to their stake. This crate holds the
//! settlement logic itself: the host environment that authenticates callers,
//! persists state and moves value is a separate, unverified layer that hands
//! plain values in and takes plain values back.

pub mod farmer;
pub mod ledger;
pub mod math;
pub mod store;
