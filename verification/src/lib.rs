//! A minimal marketplace ledger: clients, freelancers, and jobs, with a job's
//! lifecycle tracked from creation through assignment to payment.
//!
//! The core of the crate is the job store: a dense, ordinal-indexed collection
//! of job records (`store`) kept consistent with a sparse identifier-keyed
//! index (`index`). The `contract` module orchestrates the two containers and
//! enforces the lifecycle rules.
//!
//! Everything that depends on the hosting environment — the caller's identity,
//! the clock that the job identifiers are derived from, the account balance,
//! and the execution of a transfer — enters and leaves the library as plain
//! values; the library itself decides and records.

pub mod records;
pub mod index;
pub mod store;
pub mod contract;
pub mod laws;
