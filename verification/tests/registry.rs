use degree::errors::DiplomaError;
use degree::ledger::Ledger;
use degree::ops::{add_diploma, initialize, revoke_diploma};
use degree::records::{validate_inputs, AccountId, AddDiploma, Initialize, RevokeDiploma};

fn id_bytes(s: &str) -> Vec<u8> {
    s.as_bytes().to_vec()
}

fn fresh_registry(authority: AccountId) -> Ledger {
    let mut ledger = Ledger::new();
    let r = initialize(&mut ledger, &Initialize { authority });
    assert!(r.is_ok());
    ledger
}

fn count_of(ledger: &Ledger) -> u64 {
    ledger.registry.as_ref().unwrap().count
}

#[test]
fn scenario_register_then_revoke() {
    let a = AccountId { id: 1 };
    let mut ledger = fresh_registry(a);
    assert_eq!(ledger.registry.as_ref().unwrap().authority, a);
    assert_eq!(count_of(&ledger), 0);

    let r = add_diploma(
        &mut ledger,
        &AddDiploma { authority: a },
        id_bytes("CS-2024-001"),
        Some(id_bytes("bafybeigdyrzt5sfp7udm7hu76uh7y26nf3efuylqabf3oclgtqy55fbzdi")),
        1_700_000_000,
    );
    assert!(r.is_ok());
    assert_eq!(count_of(&ledger), 1);
    {
        let key = id_bytes("CS-2024-001");
        let d = ledger.diploma_record(&key).unwrap();
        assert!(d.verified);
        assert_eq!(d.authority, a);
        assert_eq!(d.created_at, 1_700_000_000);
    }

    let r = revoke_diploma(&mut ledger, &RevokeDiploma { authority: a }, id_bytes("CS-2024-001"));
    assert!(r.is_ok());
    assert_eq!(count_of(&ledger), 0);
    {
        let key = id_bytes("CS-2024-001");
        let d = ledger.diploma_record(&key).unwrap();
        assert!(!d.verified);
    }

    let r = revoke_diploma(&mut ledger, &RevokeDiploma { authority: a }, id_bytes("CS-2024-001"));
    assert_eq!(r, Err(DiplomaError::AlreadyRevoked));
    assert_eq!(count_of(&ledger), 0);

    let r = add_diploma(
        &mut ledger,
        &AddDiploma { authority: a },
        id_bytes("CS-2024-001"),
        None,
        1_700_000_001,
    );
    assert_eq!(r, Err(DiplomaError::AddressAlreadyOccupied));
    assert_eq!(count_of(&ledger), 0);
}

#[test]
fn initialize_twice_fails() {
    let a = AccountId { id: 1 };
    let mut ledger = fresh_registry(a);
    let r = initialize(&mut ledger, &Initialize { authority: AccountId { id: 2 } });
    assert_eq!(r, Err(DiplomaError::AddressAlreadyOccupied));
    assert_eq!(ledger.registry.as_ref().unwrap().authority, a);
    assert_eq!(count_of(&ledger), 0);
}

#[test]
fn identifier_length_boundaries() {
    let a = AccountId { id: 3 };
    let mut ledger = fresh_registry(a);
    let ctx = AddDiploma { authority: a };

    let r = add_diploma(&mut ledger, &ctx, Vec::new(), None, 0);
    assert_eq!(r, Err(DiplomaError::EmptyIdentifier));
    assert_eq!(count_of(&ledger), 0);

    let r = add_diploma(&mut ledger, &ctx, vec![b'x'; 101], None, 0);
    assert_eq!(r, Err(DiplomaError::IdentifierTooLong));
    assert_eq!(count_of(&ledger), 0);

    let r = add_diploma(&mut ledger, &ctx, vec![b'x'; 1], None, 0);
    assert!(r.is_ok());
    let r = add_diploma(&mut ledger, &ctx, vec![b'y'; 100], None, 0);
    assert!(r.is_ok());
    assert_eq!(count_of(&ledger), 2);
}

#[test]
fn content_reference_length_boundaries() {
    let a = AccountId { id: 4 };
    let mut ledger = fresh_registry(a);
    let ctx = AddDiploma { authority: a };

    let r = add_diploma(&mut ledger, &ctx, id_bytes("d-0"), Some(Vec::new()), 0);
    assert_eq!(r, Err(DiplomaError::EmptyContentReference));
    assert_eq!(count_of(&ledger), 0);

    let r = add_diploma(&mut ledger, &ctx, id_bytes("d-1"), Some(vec![b'h'; 61]), 0);
    assert_eq!(r, Err(DiplomaError::ContentReferenceTooLong));
    assert_eq!(count_of(&ledger), 0);

    let r = add_diploma(&mut ledger, &ctx, id_bytes("d-2"), Some(vec![b'h'; 1]), 0);
    assert!(r.is_ok());
    let r = add_diploma(&mut ledger, &ctx, id_bytes("d-3"), Some(vec![b'h'; 60]), 0);
    assert!(r.is_ok());
    let r = add_diploma(&mut ledger, &ctx, id_bytes("d-4"), None, 0);
    assert!(r.is_ok());
    assert_eq!(count_of(&ledger), 3);
}

#[test]
fn validation_checked_in_order() {
    let a = AccountId { id: 5 };
    let mut ledger = fresh_registry(a);
    // An empty identifier is reported before the over-long reference.
    let r = add_diploma(
        &mut ledger,
        &AddDiploma { authority: a },
        Vec::new(),
        Some(vec![b'h'; 61]),
        0,
    );
    assert_eq!(r, Err(DiplomaError::EmptyIdentifier));
}

#[test]
fn unauthorized_signers_are_rejected() {
    let a = AccountId { id: 6 };
    let intruder = AccountId { id: 7 };
    let mut ledger = fresh_registry(a);
    let r = add_diploma(&mut ledger, &AddDiploma { authority: a }, id_bytes("kept"), None, 5);
    assert!(r.is_ok());

    let r = add_diploma(
        &mut ledger,
        &AddDiploma { authority: intruder },
        id_bytes("stolen"),
        None,
        6,
    );
    assert_eq!(r, Err(DiplomaError::Unauthorized));
    let missing = id_bytes("stolen");
    assert!(ledger.diploma_record(&missing).is_none());
    assert_eq!(count_of(&ledger), 1);

    let r = revoke_diploma(&mut ledger, &RevokeDiploma { authority: intruder }, id_bytes("kept"));
    assert_eq!(r, Err(DiplomaError::Unauthorized));
    let kept = id_bytes("kept");
    assert!(ledger.diploma_record(&kept).unwrap().verified);
    assert_eq!(count_of(&ledger), 1);
}

#[test]
fn duplicate_identifier_is_rejected() {
    let a = AccountId { id: 8 };
    let mut ledger = fresh_registry(a);
    let ctx = AddDiploma { authority: a };
    let r = add_diploma(&mut ledger, &ctx, id_bytes("dup"), Some(id_bytes("ref-one")), 1);
    assert!(r.is_ok());
    let r = add_diploma(&mut ledger, &ctx, id_bytes("dup"), Some(id_bytes("ref-two")), 2);
    assert_eq!(r, Err(DiplomaError::AddressAlreadyOccupied));
    assert_eq!(count_of(&ledger), 1);
    // The original record is untouched.
    let key = id_bytes("dup");
    let d = ledger.diploma_record(&key).unwrap();
    assert_eq!(d.content_ref.as_deref(), Some(id_bytes("ref-one").as_slice()));
    assert_eq!(d.created_at, 1);
}

#[test]
fn operations_before_initialize_fail() {
    let a = AccountId { id: 9 };
    let mut ledger = Ledger::new();
    let r = add_diploma(&mut ledger, &AddDiploma { authority: a }, id_bytes("early"), None, 0);
    assert_eq!(r, Err(DiplomaError::AddressNotFound));
    let r = revoke_diploma(&mut ledger, &RevokeDiploma { authority: a }, id_bytes("early"));
    assert_eq!(r, Err(DiplomaError::AddressNotFound));
    assert!(ledger.registry.is_none());
    assert!(ledger.diplomas.is_empty());
}

#[test]
fn revoking_missing_record_fails() {
    let a = AccountId { id: 10 };
    let mut ledger = fresh_registry(a);
    let r = revoke_diploma(&mut ledger, &RevokeDiploma { authority: a }, id_bytes("ghost-id"));
    assert_eq!(r, Err(DiplomaError::AddressNotFound));
    assert_eq!(count_of(&ledger), 0);
}

#[test]
fn count_tracks_verified_records() {
    let a = AccountId { id: 11 };
    let mut ledger = fresh_registry(a);
    let ctx = AddDiploma { authority: a };
    for k in 0..5u8 {
        let r = add_diploma(&mut ledger, &ctx, vec![b'r', k], None, k as i64);
        assert!(r.is_ok());
        assert_eq!(count_of(&ledger), (k + 1) as u64);
    }
    let r = revoke_diploma(&mut ledger, &RevokeDiploma { authority: a }, vec![b'r', 2]);
    assert!(r.is_ok());
    let r = revoke_diploma(&mut ledger, &RevokeDiploma { authority: a }, vec![b'r', 4]);
    assert!(r.is_ok());
    assert_eq!(count_of(&ledger), 3);
    let verified = ledger.diplomas.iter().filter(|d| d.verified).count();
    assert_eq!(verified as u64, count_of(&ledger));
    // The revoked records remain as tombstones.
    assert_eq!(ledger.diplomas.len(), 5);
    let key = vec![b'r', 2];
    let d = ledger.diploma_record(&key).unwrap();
    assert!(!d.verified);
    assert_eq!(d.created_at, 2);
}

#[test]
fn tombstone_keeps_all_other_fields() {
    let a = AccountId { id: 12 };
    let mut ledger = fresh_registry(a);
    let r = add_diploma(
        &mut ledger,
        &AddDiploma { authority: a },
        id_bytes("hist-77"),
        Some(id_bytes("hash-abc")),
        42,
    );
    assert!(r.is_ok());
    let r = revoke_diploma(&mut ledger, &RevokeDiploma { authority: a }, id_bytes("hist-77"));
    assert!(r.is_ok());
    let key = id_bytes("hist-77");
    let d = ledger.diploma_record(&key).unwrap();
    assert!(!d.verified);
    assert_eq!(d.authority, a);
    assert_eq!(d.diploma_id, id_bytes("hist-77"));
    assert_eq!(d.content_ref.as_deref(), Some(id_bytes("hash-abc").as_slice()));
    assert_eq!(d.created_at, 42);
}

#[test]
fn validate_inputs_reports_first_failure() {
    assert_eq!(validate_inputs(&Vec::new(), &None), Err(DiplomaError::EmptyIdentifier));
    assert_eq!(validate_inputs(&vec![b'a'; 101], &None), Err(DiplomaError::IdentifierTooLong));
    assert_eq!(
        validate_inputs(&vec![b'a'; 100], &Some(Vec::new())),
        Err(DiplomaError::EmptyContentReference)
    );
    assert_eq!(
        validate_inputs(&vec![b'a'; 1], &Some(vec![b'h'; 61])),
        Err(DiplomaError::ContentReferenceTooLong)
    );
    assert_eq!(validate_inputs(&vec![b'a'; 1], &Some(vec![b'h'; 60])), Ok(()));
    assert_eq!(validate_inputs(&vec![b'a'; 100], &None), Ok(()));
}
