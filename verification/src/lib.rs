//! A minimal deterministic state-transition runtime for an in-memory ledger.
//!
//! Blocks of extrinsics are applied to a set of modules (chain metadata,
//! balances, claims). Every operation carries a contract over the
//! mathematical model of the state it changes.

mod arith;
pub mod balances;
pub mod proof_of_existence;
pub mod runtime;
pub mod store;
pub mod support;
pub mod system;
pub mod types;

pub use runtime::{Runtime, RuntimeCall};
