//! The two record types kept on the ledger, the request contexts that name
//! their signer, and validation of the caller-supplied fields.

use vstd::prelude::*;

verus! {

use crate::errors::DiplomaError;

/// Identity of an account, as the ledger's signature layer authenticates it.
/// Whoever signs a request proves possession of the matching credential.
#[derive(Clone, Copy, PartialEq, Eq, Structural, Debug)]
pub struct AccountId {
    pub id: u64,
}

/// Capacity reserved for `diploma_id`, in bytes.
pub const MAX_DIPLOMA_ID_LEN: usize = 100;

/// Capacity reserved for a content reference, in bytes.
pub const MAX_CONTENT_REF_LEN: usize = 60;

/// The registry singleton: the sole authority and the live count of records
/// that are still verified. Created once, never deleted.
#[derive(Clone, Copy, PartialEq, Eq, Structural, Debug)]
pub struct DiplomaRegistry {
    /// The only account permitted to mutate registry state. Set once at
    /// creation, immutable thereafter.
    pub authority: AccountId,
    /// Number of currently verified (non-revoked) diploma records.
    pub count: u64,
}

/// One diploma record, addressed by its `diploma_id`. Revocation clears
/// `verified` and keeps the rest of the record as a tombstone.
pub struct Diploma {
    /// The account that registered this record.
    pub authority: AccountId,
    /// Caller-supplied external identifier; non-empty, at most
    /// `MAX_DIPLOMA_ID_LEN` bytes, immutable once the record exists.
    pub diploma_id: Vec<u8>,
    /// Optional opaque reference to the diploma's content (for example a
    /// content hash); when present, non-empty and at most
    /// `MAX_CONTENT_REF_LEN` bytes.
    pub content_ref: Option<Vec<u8>>,
    /// `true` on creation, set to `false` exactly once by revocation.
    pub verified: bool,
    /// Timestamp captured at creation time; immutable.
    pub created_at: i64,
}

/// Mathematical image of a [`Diploma`]: the byte fields as sequences.
#[verifier::ext_equal]
pub ghost struct DiplomaView {
    pub authority: AccountId,
    pub diploma_id: Seq<u8>,
    pub content_ref: Option<Seq<u8>>,
    pub verified: bool,
    pub created_at: i64,
}

impl View for Diploma {
    type V = DiplomaView;

    open spec fn view(&self) -> DiplomaView {
        DiplomaView {
            authority: self.authority,
            diploma_id: self.diploma_id@,
            content_ref: match self.content_ref {
                Some(r) => Some(r@),
                None => None,
            },
            verified: self.verified,
            created_at: self.created_at,
        }
    }
}

impl DiplomaView {
    /// Field validity that every stored record satisfies.
    pub open spec fn wf(self) -> bool {
        id_valid(self.diploma_id) && content_ref_valid(self.content_ref)
    }
}

/// A diploma identifier is acceptable: non-empty and within capacity.
pub open spec fn id_valid(id: Seq<u8>) -> bool {
    0 < id.len() <= MAX_DIPLOMA_ID_LEN
}

/// A content reference is acceptable: absent, or non-empty and within
/// capacity. Absence is not encodable as an empty string.
pub open spec fn content_ref_valid(content_ref: Option<Seq<u8>>) -> bool {
    match content_ref {
        Some(r) => 0 < r.len() <= MAX_CONTENT_REF_LEN,
        None => true,
    }
}

/// Outcome of input validation, with the checks in the order they are made:
/// identifier emptiness, identifier length, then the same two for the
/// reference when one is supplied.
pub open spec fn spec_validate(id: Seq<u8>, content_ref: Option<Seq<u8>>) -> Result<
    (),
    DiplomaError,
> {
    if id.len() == 0 {
        Err(DiplomaError::EmptyIdentifier)
    } else if id.len() > MAX_DIPLOMA_ID_LEN {
        Err(DiplomaError::IdentifierTooLong)
    } else {
        match content_ref {
            None => Ok(()),
            Some(r) => if r.len() == 0 {
                Err(DiplomaError::EmptyContentReference)
            } else if r.len() > MAX_CONTENT_REF_LEN {
                Err(DiplomaError::ContentReferenceTooLong)
            } else {
                Ok(())
            },
        }
    }
}

/// Validate the caller-supplied fields of a registration request.
///
/// Succeeds exactly on a valid identifier together with a valid (or absent)
/// content reference, and otherwise reports the first check that failed.
pub fn validate_inputs(diploma_id: &Vec<u8>, content_ref: &Option<Vec<u8>>) -> (r: Result<
    (),
    DiplomaError,
>)
    ensures
        r == spec_validate(diploma_id@, content_ref.deep_view()),
        r is Ok <==> id_valid(diploma_id@) && content_ref_valid(content_ref.deep_view()),
{
    if diploma_id.len() == 0 {
        return Err(DiplomaError::EmptyIdentifier);
    }
    if diploma_id.len() > MAX_DIPLOMA_ID_LEN {
        return Err(DiplomaError::IdentifierTooLong);
    }
    match content_ref {
        None => Ok(()),
        Some(r) => {
            if r.len() == 0 {
                Err(DiplomaError::EmptyContentReference)
            } else if r.len() > MAX_CONTENT_REF_LEN {
                Err(DiplomaError::ContentReferenceTooLong)
            } else {
                Ok(())
            }
        },
    }
}

/// Accounts presented with an `initialize` request: the signer that will
/// become the registry's authority.
#[derive(Clone, Copy, PartialEq, Eq, Structural, Debug)]
pub struct Initialize {
    pub authority: AccountId,
}

/// Accounts presented with an `add_diploma` request: the signing caller.
#[derive(Clone, Copy, PartialEq, Eq, Structural, Debug)]
pub struct AddDiploma {
    pub authority: AccountId,
}

/// Accounts presented with a `revoke_diploma` request: the signing caller.
#[derive(Clone, Copy, PartialEq, Eq, Structural, Debug)]
pub struct RevokeDiploma {
    pub authority: AccountId,
}

} // verus!
