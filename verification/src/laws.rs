//! The registry's guarantees, stated over the transition functions and
//! proved once and for all: the counter invariant, identifier uniqueness,
//! one-way revocation, and authority gating.

use vstd::prelude::*;

verus! {

use crate::errors::DiplomaError;
use crate::ledger::{
    count_active, lemma_count_active_le_len, lemma_count_active_pos, lemma_count_active_push,
    lemma_count_active_update, lemma_index_of_unique, LedgerView,
};
use crate::ops::{spec_add_diploma, spec_initialize, spec_revoke_diploma};
use crate::records::{AccountId, DiplomaRegistry, DiplomaView};

/// In a well-formed ledger the singleton's counter equals the number of
/// records whose `verified` flag is still set.
pub proof fn lemma_count_matches_active(l: LedgerView, reg: DiplomaRegistry)
    requires
        l.inv(),
        l.registry == Some(reg),
    ensures
        reg.count == count_active(l.diplomas),
{
}

/// `initialize` preserves the ledger's invariant: it either creates the
/// singleton with a zero count over an empty record set, or changes nothing.
pub proof fn lemma_initialize_preserves_invariant(pre: LedgerView, signer: AccountId)
    requires
        pre.inv(),
    ensures
        spec_initialize(pre, signer).0.inv(),
{
}

/// `add_diploma` preserves the ledger's invariant; in particular a
/// successful registration raises the counter together with the number of
/// verified records. The bound on the number of records keeps the counter
/// within its machine width.
pub proof fn lemma_add_preserves_invariant(
    pre: LedgerView,
    signer: AccountId,
    id: Seq<u8>,
    content_ref: Option<Seq<u8>>,
    now: i64,
)
    requires
        pre.inv(),
        pre.diplomas.len() < u64::MAX,
    ensures
        spec_add_diploma(pre, signer, id, content_ref, now).0.inv(),
{
    let (post, r) = spec_add_diploma(pre, signer, id, content_ref, now);
    if r is Ok {
        let reg = pre.registry->0;
        let fresh = DiplomaView {
            authority: reg.authority,
            diploma_id: id,
            content_ref: content_ref,
            verified: true,
            created_at: now,
        };
        lemma_count_active_le_len(pre.diplomas);
        lemma_count_active_push(pre.diplomas, fresh);
        assert forall|i: int, j: int| 0 <= i < j < post.diplomas.len() implies post.diplomas[i].diploma_id
            != post.diplomas[j].diploma_id by {
            if j == pre.diplomas.len() {
                if pre.diplomas[i].diploma_id == id {
                    assert(pre.contains_id(id));
                }
            }
        }
        assert forall|i: int| 0 <= i < post.diplomas.len() implies (
        #[trigger] post.diplomas[i]).wf() by {
            if i < pre.diplomas.len() {
                assert(pre.diplomas[i].wf());
            }
        }
        assert forall|i: int| 0 <= i < post.diplomas.len() implies (
        #[trigger] post.diplomas[i]).authority == reg.authority by {
            if i < pre.diplomas.len() {
                assert(pre.diplomas[i].authority == reg.authority);
            }
        }
    }
}

/// `revoke_diploma` preserves the ledger's invariant; in particular a
/// successful revocation lowers the counter together with the number of
/// verified records.
pub proof fn lemma_revoke_preserves_invariant(pre: LedgerView, signer: AccountId, id: Seq<u8>)
    requires
        pre.inv(),
    ensures
        spec_revoke_diploma(pre, signer, id).0.inv(),
{
    let (post, r) = spec_revoke_diploma(pre, signer, id);
    if r is Ok {
        let reg = pre.registry->0;
        let i = pre.index_of(id);
        assert(0 <= i < pre.diplomas.len() && pre.diplomas[i].diploma_id == id);
        let cleared = DiplomaView { verified: false, ..pre.diplomas[i] };
        lemma_count_active_pos(pre.diplomas, i);
        lemma_count_active_update(pre.diplomas, i, cleared);
        assert forall|k: int, m: int| 0 <= k < m < post.diplomas.len() implies post.diplomas[k].diploma_id
            != post.diplomas[m].diploma_id by {
            assert(pre.diplomas[k].diploma_id != pre.diplomas[m].diploma_id);
        }
        assert forall|k: int| 0 <= k < post.diplomas.len() implies (
        #[trigger] post.diplomas[k]).wf() by {
            assert(pre.diplomas[k].wf());
        }
        assert forall|k: int| 0 <= k < post.diplomas.len() implies (
        #[trigger] post.diplomas[k]).authority == reg.authority by {
            assert(pre.diplomas[k].authority == reg.authority);
        }
    }
}

/// At most one record ever exists under a given identifier: any two
/// positions holding the same identifier are the same position.
pub proof fn lemma_at_most_one_record(l: LedgerView, id: Seq<u8>, i: int, j: int)
    requires
        l.inv(),
        0 <= i < l.diplomas.len(),
        0 <= j < l.diplomas.len(),
        l.diplomas[i].diploma_id == id,
        l.diplomas[j].diploma_id == id,
    ensures
        i == j,
{
    if i < j {
        assert(l.diplomas[i].diploma_id != l.diplomas[j].diploma_id);
    } else if j < i {
        assert(l.diplomas[j].diploma_id != l.diplomas[i].diploma_id);
    }
}

/// A second registration under an identifier that is already stored always
/// fails, whatever the signer and the other inputs, and leaves the ledger
/// unchanged.
pub proof fn lemma_duplicate_add_rejected(
    pre: LedgerView,
    signer: AccountId,
    id: Seq<u8>,
    content_ref: Option<Seq<u8>>,
    now: i64,
)
    requires
        pre.contains_id(id),
    ensures
        spec_add_diploma(pre, signer, id, content_ref, now).0 == pre,
        spec_add_diploma(pre, signer, id, content_ref, now).1 is Err,
{
}

/// Records only ever move from verified to revoked: every record that
/// existed before a transition keeps its identifier, and one whose
/// `verified` flag was cleared never has it set again.
pub open spec fn revocation_monotonic(pre: LedgerView, post: LedgerView) -> bool {
    &&& post.diplomas.len() >= pre.diplomas.len()
    &&& forall|i: int|
        0 <= i < pre.diplomas.len() ==> {
            &&& (#[trigger] post.diplomas[i]).diploma_id == pre.diplomas[i].diploma_id
            &&& (post.diplomas[i].verified ==> pre.diplomas[i].verified)
        }
}

/// `initialize` never touches a record.
pub proof fn lemma_initialize_monotonic(pre: LedgerView, signer: AccountId)
    ensures
        revocation_monotonic(pre, spec_initialize(pre, signer).0),
{
}

/// `add_diploma` never touches an existing record, so no revocation is ever
/// undone by it.
pub proof fn lemma_add_monotonic(
    pre: LedgerView,
    signer: AccountId,
    id: Seq<u8>,
    content_ref: Option<Seq<u8>>,
    now: i64,
)
    ensures
        revocation_monotonic(pre, spec_add_diploma(pre, signer, id, content_ref, now).0),
{
}

/// `revoke_diploma` only ever clears a `verified` flag, never sets one.
pub proof fn lemma_revoke_monotonic(pre: LedgerView, signer: AccountId, id: Seq<u8>)
    ensures
        revocation_monotonic(pre, spec_revoke_diploma(pre, signer, id).0),
{
}

/// Revocation is terminal and not idempotent: after a successful
/// revocation, revoking the same record again fails with `AlreadyRevoked`
/// and changes nothing, the counter included.
pub proof fn lemma_second_revoke_rejected(pre: LedgerView, signer: AccountId, id: Seq<u8>)
    requires
        pre.inv(),
        spec_revoke_diploma(pre, signer, id).1 is Ok,
    ensures
        spec_revoke_diploma(spec_revoke_diploma(pre, signer, id).0, signer, id) == (
            spec_revoke_diploma(pre, signer, id).0,
            Err::<(), DiplomaError>(DiplomaError::AlreadyRevoked),
        ),
{
    let mid = spec_revoke_diploma(pre, signer, id).0;
    let i = pre.index_of(id);
    assert(0 <= i < pre.diplomas.len() && pre.diplomas[i].diploma_id == id);
    lemma_revoke_preserves_invariant(pre, signer, id);
    assert(mid.diplomas[i].diploma_id == id);
    lemma_index_of_unique(mid, id, i);
    assert(!mid.diplomas[i].verified);
}

/// Authority gating: once the singleton exists, a mutating request signed
/// by anything but the stored authority always fails with `Unauthorized`
/// and produces no state change.
pub proof fn lemma_authority_gating(
    l: LedgerView,
    reg: DiplomaRegistry,
    signer: AccountId,
    id: Seq<u8>,
    content_ref: Option<Seq<u8>>,
    now: i64,
)
    requires
        l.registry == Some(reg),
        signer != reg.authority,
    ensures
        spec_add_diploma(l, signer, id, content_ref, now) == (
            l,
            Err::<(), DiplomaError>(DiplomaError::Unauthorized),
        ),
        spec_revoke_diploma(l, signer, id) == (
            l,
            Err::<(), DiplomaError>(DiplomaError::Unauthorized),
        ),
{
}

} // verus!
