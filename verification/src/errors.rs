//! The error taxonomy: every failure is a precondition violation that aborts
//! the current operation with no state change.

use vstd::prelude::*;

verus! {

/// Why an operation on the diploma registry was rejected.
///
/// Each operation either commits fully or fails with one of these, leaving
/// the ledger exactly as it was.
#[derive(Clone, Copy, PartialEq, Eq, Structural, Debug)]
pub enum DiplomaError {
    /// `diploma_id` has zero length.
    EmptyIdentifier,
    /// `diploma_id` exceeds the identifier capacity.
    IdentifierTooLong,
    /// A content reference was supplied but has zero length.
    EmptyContentReference,
    /// The supplied content reference exceeds the reference capacity.
    ContentReferenceTooLong,
    /// Revocation was requested on a record that is already revoked.
    AlreadyRevoked,
    /// The signer does not match the registry's stored authority.
    Unauthorized,
    /// Creation collided with a record that already occupies the address.
    AddressAlreadyOccupied,
    /// The referenced record or the registry singleton does not exist.
    AddressNotFound,
}

} // verus!
