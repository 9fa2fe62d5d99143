//! An authority-gated registry of credential records ("diplomas") kept on a
//! transactional key-value ledger.
//!
//! A single authority initializes the registry, registers new diploma records,
//! and revokes existing ones; anyone may read them. Records are addressed by
//! their caller-supplied identifier, so identifier uniqueness is enforced by
//! the ledger's create-if-absent semantics. Revocation is a one-way soft
//! delete: the record stays behind as a tombstone with its `verified` flag
//! cleared, and the registry's counter always equals the number of records
//! that are still verified.

pub mod errors;
pub mod ledger;
pub mod laws;
pub mod ops;
pub mod records;
