//! Value-level models of a family of zero-knowledge arithmetic circuits.
//!
//! Each circuit in this family is a set of polynomial constraints over a
//! finite field, gated by per-row enable flags.  This crate states, as
//! ordinary functions over plain integers, exactly when each gate is
//! satisfied, and proves the policy-level laws that the circuits are meant
//! to enforce: range-bounded comparisons, set membership by zero product,
//! flag-gated access-control predicates, balance conservation, and Merkle
//! aggregation of Poseidon digests.

pub mod access_control;
pub mod arithmetic;
pub mod comparison;
pub mod field;
pub mod membership;
pub mod merkle;
pub mod predicates;
pub mod rollup;
pub mod transaction;
