use sha2::Digest;
use windchill::ledger::{EntryType, FrameCapture, IntegrityError, WindchillLedger};
use windchill::seal::seal_frame_into_ledger;

fn sealed_ledger(payloads: &[&[u8]]) -> WindchillLedger {
    let mut ledger = WindchillLedger::new();
    for (i, p) in payloads.iter().enumerate() {
        let cap = FrameCapture {
            scene_id: format!("scene-{}", i),
            payload: p.to_vec(),
            entry_type: EntryType::Standard,
            timestamp_micros: i as u64,
        };
        seal_frame_into_ledger(&cap, &mut ledger).ok().unwrap();
    }
    ledger
}

#[test]
fn empty_ledger_verifies() {
    let ledger = WindchillLedger::new();
    assert!(ledger.verify_chain().is_ok());
}

#[test]
fn sealed_ledger_always_verifies() {
    let ledger = sealed_ledger(&[b"a", b"b", b"c", b"d"]);
    assert!(ledger.verify_chain().is_ok());
    for i in 0u64..4 {
        assert!(ledger.verify_entry(i).is_ok());
    }
}

#[test]
fn tampered_commitment_reported_at_earliest_index() {
    let mut ledger = sealed_ledger(&[b"frame-a", b"frame-b"]);
    assert!(ledger.verify_chain().is_ok());
    ledger.entries[0].frame_commitment[0] ^= 0x01;
    match ledger.verify_chain() {
        Err(IntegrityError::RootMismatch { sequence_id, expected, actual }) => {
            // Entry 1 no longer recomputes either, but the report must name
            // the earliest divergent entry.
            assert_eq!(sequence_id, 0);
            assert_ne!(expected, actual);
        }
        other => panic!("expected a root mismatch at entry 0, got {:?}", other),
    }
}

#[test]
fn tampered_root_reported_at_its_index() {
    let mut ledger = sealed_ledger(&[b"a", b"b", b"c"]);
    ledger.entries[1].merkle_root[5] ^= 0xff;
    match ledger.verify_chain() {
        Err(IntegrityError::RootMismatch { sequence_id, .. }) => {
            assert_eq!(sequence_id, 1);
        }
        other => panic!("expected a root mismatch at entry 1, got {:?}", other),
    }
    assert!(ledger.verify_entry(0).is_ok());
    assert!(matches!(
        ledger.verify_entry(1),
        Err(IntegrityError::RootMismatch { sequence_id: 1, .. })
    ));
    // The successor chained to the original root, so its spot-check now
    // fails as well.
    assert!(matches!(
        ledger.verify_entry(2),
        Err(IntegrityError::RootMismatch { sequence_id: 2, .. })
    ));
}

#[test]
fn spot_check_misses_consistent_mid_chain_forgery() {
    // Replace entry 1's commitment and recompute its root consistently from
    // its predecessor: the constant-time spot-checks of entries 0 and 1 still
    // pass, and only the check of the successor (or a full pass from
    // genesis) exposes the forgery.
    let mut ledger = sealed_ledger(&[b"a", b"b", b"c"]);
    let forged_commitment = sha2::Sha256::digest(b"forged").to_vec();
    let prev_root = ledger.entries[0].merkle_root.clone();
    let mut preimage = forged_commitment.clone();
    preimage.extend_from_slice(&prev_root);
    let forged_root = sha2::Sha256::digest(&preimage).to_vec();
    ledger.entries[1].frame_commitment = forged_commitment;
    ledger.entries[1].merkle_root = forged_root;
    assert!(ledger.verify_entry(0).is_ok());
    assert!(ledger.verify_entry(1).is_ok());
    assert!(matches!(
        ledger.verify_entry(2),
        Err(IntegrityError::RootMismatch { sequence_id: 2, .. })
    ));
    assert!(matches!(
        ledger.verify_chain(),
        Err(IntegrityError::RootMismatch { sequence_id: 2, .. })
    ));
}

#[test]
fn unknown_sequence_id_is_reported() {
    let ledger = sealed_ledger(&[b"a"]);
    assert!(matches!(
        ledger.verify_entry(1),
        Err(IntegrityError::UnknownSequence { sequence_id: 1 })
    ));
    assert!(matches!(
        WindchillLedger::new().verify_entry(0),
        Err(IntegrityError::UnknownSequence { sequence_id: 0 })
    ));
}

#[test]
fn reload_reverifies_and_round_trips() {
    let ledger = sealed_ledger(&[b"a", b"b", b"c"]);
    let roots: Vec<Vec<u8>> = ledger.entries.iter().map(|e| e.merkle_root.clone()).collect();
    let reloaded = WindchillLedger::from_entries(ledger.entries).ok().unwrap();
    assert_eq!(reloaded.len(), 3);
    for i in 0u64..3 {
        assert_eq!(reloaded.entry_at(i).unwrap().merkle_root, roots[i as usize]);
    }
    assert!(reloaded.verify_chain().is_ok());
}

#[test]
fn reload_rejects_malformed_entries() {
    let mut ledger = sealed_ledger(&[b"a", b"b"]);
    ledger.entries[1].sequence_id = 5;
    assert!(matches!(
        WindchillLedger::from_entries(ledger.entries),
        Err(IntegrityError::MalformedEntry { sequence_id: 1 })
    ));

    let mut ledger = sealed_ledger(&[b"a", b"b"]);
    ledger.entries[0].scene_id.clear();
    assert!(matches!(
        WindchillLedger::from_entries(ledger.entries),
        Err(IntegrityError::MalformedEntry { sequence_id: 0 })
    ));
}

#[test]
fn reload_rejects_broken_chain() {
    let mut ledger = sealed_ledger(&[b"a", b"b"]);
    ledger.entries[1].merkle_root[0] ^= 0x80;
    assert!(matches!(
        WindchillLedger::from_entries(ledger.entries),
        Err(IntegrityError::RootMismatch { sequence_id: 1, .. })
    ));
}

#[test]
fn entry_at_bounds() {
    let ledger = sealed_ledger(&[b"a", b"b"]);
    assert_eq!(ledger.entry_at(0).unwrap().sequence_id, 0);
    assert_eq!(ledger.entry_at(1).unwrap().sequence_id, 1);
    assert!(ledger.entry_at(2).is_none());
}
