//! Inventory of the shared libraries that a process has mapped into its
//! address space.
//!
//! The crate holds the rules of a watch session and proves them: which
//! mapping entries count as libraries, how observations accumulate, and when
//! the polling loop probes, snapshots, sleeps and stops. Reading the mapping
//! table, probing for liveness, sleeping and printing are left to the caller,
//! who feeds the results in as plain values.

pub mod filter;
pub mod inventory;
pub mod mapping;
pub mod report;
pub mod session;
pub mod style;
pub mod target;
pub mod watch;
