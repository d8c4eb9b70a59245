//! Finding and terminating running processes by executable name.
//!
//! The library holds the decisions: which snapshot entries match a query,
//! which of them belong to the caller's principal, and what a batch of
//! termination attempts amounts to. The operating-system calls that produce
//! snapshots, identities and termination results are made by the host and
//! handed in as plain values.
pub mod matching;
pub mod identity;
pub mod facade;
pub mod laws;
