//! The three operations of the registry, each an atomic read-modify-write
//! over the ledger: `initialize`, `add_diploma`, `revoke_diploma`.
//!
//! Each operation is specified by a transition function on ledger views that
//! yields the new state together with the outcome; the executable operation
//! is proved to realize that transition exactly and to preserve the ledger's
//! invariant. On any failure the ledger is left untouched.

use vstd::prelude::*;

verus! {

use crate::errors::DiplomaError;
use crate::laws::{lemma_add_preserves_invariant, lemma_revoke_preserves_invariant};
use crate::ledger::{
    lemma_count_active_le_len, lemma_count_active_pos, lemma_index_of_unique, Ledger, LedgerView,
};
use crate::records::{
    spec_validate, validate_inputs, AccountId, AddDiploma, Diploma, DiplomaRegistry, DiplomaView,
    Initialize, RevokeDiploma,
};

/// Transition of `initialize`: creates the singleton at its fixed address
/// with the signer as authority and a zero count, or fails without effect
/// when the address is already occupied.
pub open spec fn spec_initialize(pre: LedgerView, signer: AccountId) -> (LedgerView, Result<
    (),
    DiplomaError,
>) {
    if pre.registry is Some {
        (pre, Err(DiplomaError::AddressAlreadyOccupied))
    } else {
        (
            LedgerView {
                registry: Some(DiplomaRegistry { authority: signer, count: 0 }),
                diplomas: pre.diplomas,
            },
            Ok(()),
        )
    }
}

/// Transition of `add_diploma`: after the singleton resolves and the signer
/// proves to be the authority, the inputs are validated in order; a fresh,
/// verified record is then created at the address derived from `diploma_id`
/// and the count incremented, unless that address is already occupied.
pub open spec fn spec_add_diploma(
    pre: LedgerView,
    signer: AccountId,
    id: Seq<u8>,
    content_ref: Option<Seq<u8>>,
    now: i64,
) -> (LedgerView, Result<(), DiplomaError>) {
    match pre.registry {
        None => (pre, Err(DiplomaError::AddressNotFound)),
        Some(reg) => {
            if signer != reg.authority {
                (pre, Err(DiplomaError::Unauthorized))
            } else {
                match spec_validate(id, content_ref) {
                    Err(e) => (pre, Err(e)),
                    Ok(()) => {
                        if pre.contains_id(id) {
                            (pre, Err(DiplomaError::AddressAlreadyOccupied))
                        } else {
                            (
                                LedgerView {
                                    registry: Some(
                                        DiplomaRegistry {
                                            authority: reg.authority,
                                            count: (reg.count + 1) as u64,
                                        },
                                    ),
                                    diplomas: pre.diplomas.push(
                                        DiplomaView {
                                            authority: reg.authority,
                                            diploma_id: id,
                                            content_ref: content_ref,
                                            verified: true,
                                            created_at: now,
                                        },
                                    ),
                                },
                                Ok(()),
                            )
                        }
                    },
                }
            }
        },
    }
}

/// Transition of `revoke_diploma`: after the singleton resolves and the
/// signer proves to be the authority, the record under `id` has its
/// `verified` flag cleared and the count decremented; a record that is
/// absent or already revoked fails without effect. Everything else about
/// the record is left untouched: it remains as a tombstone.
pub open spec fn spec_revoke_diploma(pre: LedgerView, signer: AccountId, id: Seq<u8>) -> (
    LedgerView,
    Result<(), DiplomaError>,
) {
    match pre.registry {
        None => (pre, Err(DiplomaError::AddressNotFound)),
        Some(reg) => {
            if signer != reg.authority {
                (pre, Err(DiplomaError::Unauthorized))
            } else if !pre.contains_id(id) {
                (pre, Err(DiplomaError::AddressNotFound))
            } else {
                let i = pre.index_of(id);
                let d = pre.diplomas[i];
                if !d.verified {
                    (pre, Err(DiplomaError::AlreadyRevoked))
                } else {
                    (
                        LedgerView {
                            registry: Some(
                                DiplomaRegistry {
                                    authority: reg.authority,
                                    count: (reg.count - 1) as u64,
                                },
                            ),
                            diplomas: pre.diplomas.update(
                                i,
                                DiplomaView { verified: false, ..d },
                            ),
                        },
                        Ok(()),
                    )
                }
            }
        },
    }
}

/// Create the registry singleton with the signer as authority and a zero
/// count. Fails with `AddressAlreadyOccupied` when the singleton already
/// exists: the ledger refuses to re-create an occupied address, so a second
/// call can never succeed.
pub fn initialize(ledger: &mut Ledger, ctx: &Initialize) -> (r: Result<(), DiplomaError>)
    requires
        old(ledger)@.inv(),
    ensures
        final(ledger)@ == spec_initialize(old(ledger)@, ctx.authority).0,
        r == spec_initialize(old(ledger)@, ctx.authority).1,
        final(ledger)@.inv(),
{
    if ledger.registry.is_some() {
        return Err(DiplomaError::AddressAlreadyOccupied);
    }
    ledger.registry = Some(DiplomaRegistry { authority: ctx.authority, count: 0 });
    proof {
        assert(ledger@ =~= spec_initialize(old(ledger)@, ctx.authority).0);
    }
    Ok(())
}

/// Register a new diploma record under `diploma_id`, verified and stamped
/// with `now`, and increment the registry's count.
///
/// Succeeds exactly when the singleton exists, the signer is the authority,
/// the inputs pass validation, and no record occupies the derived address;
/// otherwise the specific rejection is returned and the ledger is untouched.
/// The bound on the number of records keeps the counter within its machine
/// width.
pub fn add_diploma(
    ledger: &mut Ledger,
    ctx: &AddDiploma,
    diploma_id: Vec<u8>,
    content_ref: Option<Vec<u8>>,
    now: i64,
) -> (r: Result<(), DiplomaError>)
    requires
        old(ledger)@.inv(),
        old(ledger)@.diplomas.len() < u64::MAX,
    ensures
        final(ledger)@ == spec_add_diploma(
            old(ledger)@,
            ctx.authority,
            diploma_id@,
            content_ref.deep_view(),
            now,
        ).0,
        r == spec_add_diploma(
            old(ledger)@,
            ctx.authority,
            diploma_id@,
            content_ref.deep_view(),
            now,
        ).1,
        final(ledger)@.inv(),
{
    let reg = match ledger.registry {
        None => {
            return Err(DiplomaError::AddressNotFound);
        },
        Some(reg) => reg,
    };
    if ctx.authority != reg.authority {
        return Err(DiplomaError::Unauthorized);
    }
    if let Err(e) = validate_inputs(&diploma_id, &content_ref) {
        return Err(e);
    }
    if let Some(_) = ledger.find_diploma(&diploma_id) {
        return Err(DiplomaError::AddressAlreadyOccupied);
    }
    proof {
        lemma_count_active_le_len(old(ledger)@.diplomas);
    }
    let diploma = Diploma {
        authority: reg.authority,
        diploma_id: diploma_id,
        content_ref: content_ref,
        verified: true,
        created_at: now,
    };
    let ghost new_view = diploma@;
    ledger.diplomas.push(diploma);
    ledger.registry = Some(DiplomaRegistry { authority: reg.authority, count: reg.count + 1 });
    proof {
        let post = spec_add_diploma(
            old(ledger)@,
            ctx.authority,
            diploma_id@,
            content_ref.deep_view(),
            now,
        ).0;
        assert(ledger@.diplomas =~= old(ledger)@.diplomas.push(new_view));
        assert(ledger@ =~~= post);
        lemma_add_preserves_invariant(
            old(ledger)@,
            ctx.authority,
            diploma_id@,
            content_ref.deep_view(),
            now,
        );
    }
    Ok(())
}

/// Revoke the diploma record stored under `diploma_id`: clear its `verified`
/// flag and decrement the registry's count, leaving the rest of the record
/// as a tombstone.
///
/// Succeeds exactly when the singleton exists, the signer is the authority,
/// the record exists, and it is still verified; revoking an already-revoked
/// record fails with `AlreadyRevoked`, and on any failure the ledger is
/// untouched. There is no way back: no operation sets `verified` again.
pub fn revoke_diploma(ledger: &mut Ledger, ctx: &RevokeDiploma, diploma_id: Vec<u8>) -> (r: Result<
    (),
    DiplomaError,
>)
    requires
        old(ledger)@.inv(),
    ensures
        final(ledger)@ == spec_revoke_diploma(old(ledger)@, ctx.authority, diploma_id@).0,
        r == spec_revoke_diploma(old(ledger)@, ctx.authority, diploma_id@).1,
        final(ledger)@.inv(),
{
    let reg = match ledger.registry {
        None => {
            return Err(DiplomaError::AddressNotFound);
        },
        Some(reg) => reg,
    };
    if ctx.authority != reg.authority {
        return Err(DiplomaError::Unauthorized);
    }
    let i = match ledger.find_diploma(&diploma_id) {
        None => {
            return Err(DiplomaError::AddressNotFound);
        },
        Some(i) => i,
    };
    proof {
        lemma_index_of_unique(old(ledger)@, diploma_id@, i as int);
    }
    if !ledger.diplomas[i].verified {
        return Err(DiplomaError::AlreadyRevoked);
    }
    proof {
        lemma_count_active_pos(old(ledger)@.diplomas, i as int);
        lemma_count_active_le_len(old(ledger)@.diplomas);
    }
    ledger.diplomas[i].verified = false;
    ledger.registry = Some(DiplomaRegistry { authority: reg.authority, count: reg.count - 1 });
    proof {
        let pre = old(ledger)@;
        let d = pre.diplomas[i as int];
        let cleared = DiplomaView { verified: false, ..d };
        let post = spec_revoke_diploma(pre, ctx.authority, diploma_id@).0;
        assert(ledger@.diplomas =~= pre.diplomas.update(i as int, cleared));
        assert(ledger@ =~= post);
        lemma_revoke_preserves_invariant(pre, ctx.authority, diploma_id@);
    }
    Ok(())
}

} // verus!
