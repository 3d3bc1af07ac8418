use sp1_helios_script::{
    NoriBridgeCheckpoint, NoriBridgeHead, NoriBridgeHeadMode, ProofOutputsError, RustProofOutputs,
    StartPoint,
};

fn outputs(next: [u8; 32], current: [u8; 32]) -> Vec<u8> {
    let mut bytes = vec![0u8; 224];
    bytes[64..96].copy_from_slice(&next);
    bytes[192..224].copy_from_slice(&current);
    bytes
}

fn warm_head(slot: u64, current: [u8; 32], next: [u8; 32]) -> NoriBridgeHead {
    NoriBridgeHead::new(
        "checkpoint.json".to_string(),
        NoriBridgeHeadMode::Finality,
        StartPoint::Warm(NoriBridgeCheckpoint {
            slot_head: slot,
            current_sync_commitee: current,
            next_sync_committee: next,
        }),
    )
}

#[test]
fn mode_from_str_finality() {
    assert_eq!(NoriBridgeHeadMode::from_str("finality"), Ok(NoriBridgeHeadMode::Finality));
}

#[test]
fn mode_from_str_optimistic() {
    assert_eq!(NoriBridgeHeadMode::from_str("optimistic"), Ok(NoriBridgeHeadMode::Optimistic));
}

#[test]
fn mode_from_str_is_case_sensitive() {
    assert_eq!(
        NoriBridgeHeadMode::from_str("Finality"),
        Err("Invalid value for NoriBridgeHeadMode: 'Finality'. Expected 'finality' or 'optimistic'."
            .to_string())
    );
}

#[test]
fn mode_from_str_rejects_empty() {
    assert_eq!(
        NoriBridgeHeadMode::from_str(""),
        Err("Invalid value for NoriBridgeHeadMode: ''. Expected 'finality' or 'optimistic'."
            .to_string())
    );
}

#[test]
fn mode_names() {
    assert_eq!(NoriBridgeHeadMode::Finality.to_string(), "Finality");
    assert_eq!(NoriBridgeHeadMode::Optimistic.to_string(), "Optimistic");
}

#[test]
fn warm_start_takes_checkpoint() {
    let head = warm_head(100, [1; 32], [2; 32]);
    assert_eq!(head.slot_head(), 100);
    assert_eq!(head.current_sync_committee(), [1; 32]);
    assert_eq!(head.next_sync_committee(), [2; 32]);
    assert_eq!(head.nb_checkpoint_location(), "checkpoint.json");
    assert_eq!(head.bridge_mode(), NoriBridgeHeadMode::Finality);
}

#[test]
fn cold_start_has_no_next_committee() {
    let head = NoriBridgeHead::new(
        "cp".to_string(),
        NoriBridgeHeadMode::Finality,
        StartPoint::Cold { slot_head: 7, current_sync_committee: [9; 32] },
    );
    assert_eq!(head.slot_head(), 7);
    assert_eq!(head.current_sync_committee(), [9; 32]);
    assert_eq!(head.next_sync_committee(), [0; 32]);
}

#[test]
fn sync_committee_period() {
    let head = warm_head(0, [0; 32], [0; 32]);
    assert_eq!(head.get_sync_committee_period(8191), 0);
    let head = warm_head(0, [0; 32], [0; 32]);
    assert_eq!(head.get_sync_committee_period(8192), 1);
    let head = warm_head(0, [0; 32], [0; 32]);
    assert_eq!(head.get_sync_committee_period(3 * 8192 + 5), 3);
}

#[test]
fn stale_only_past_the_head() {
    let head = warm_head(100, [0; 32], [0; 32]);
    assert!(!head.is_stale(99));
    assert!(!head.is_stale(100));
    assert!(head.is_stale(101));
}

#[test]
fn known_sync_committee_update() {
    let head = warm_head(1, [0; 32], [5; 32]);
    assert!(head.sync_committee_update_is_known(Some([5; 32])));
    assert!(!head.sync_committee_update_is_known(Some([6; 32])));
    assert!(!head.sync_committee_update_is_known(None));
}

#[test]
fn advance_moves_head_and_committees() {
    let mut head = warm_head(100, [1; 32], [2; 32]);
    let out = RustProofOutputs::from_abi(&outputs([3; 32], [4; 32])).unwrap();
    head.advance(200, &out);
    assert_eq!(head.slot_head(), 200);
    assert_eq!(head.next_sync_committee(), [3; 32]);
    assert_eq!(head.current_sync_committee(), [4; 32]);
    assert!(!head.is_stale(200));
}

#[test]
fn advance_keeps_next_committee_on_zero_hash() {
    let mut head = warm_head(100, [1; 32], [2; 32]);
    let out = RustProofOutputs::from_abi(&outputs([0; 32], [4; 32])).unwrap();
    head.advance(150, &out);
    assert_eq!(head.next_sync_committee(), [2; 32]);
    assert_eq!(head.current_sync_committee(), [4; 32]);
}

#[test]
fn apply_public_values_accepts_seven_words() {
    let mut head = warm_head(10, [1; 32], [2; 32]);
    assert_eq!(head.apply_public_values(20, &outputs([7; 32], [8; 32])), Ok(()));
    assert_eq!(head.slot_head(), 20);
    assert_eq!(head.next_sync_committee(), [7; 32]);
    assert_eq!(head.current_sync_committee(), [8; 32]);
}

#[test]
fn apply_public_values_rejects_bad_length_and_keeps_head() {
    let mut head = warm_head(10, [1; 32], [2; 32]);
    assert_eq!(
        head.apply_public_values(20, &[0u8; 100]),
        Err(ProofOutputsError::InvalidLength)
    );
    assert_eq!(head.slot_head(), 10);
    assert_eq!(head.next_sync_committee(), [2; 32]);
    assert_eq!(head.current_sync_committee(), [1; 32]);
}

#[test]
fn checkpoint_round_trip() {
    let mut head = warm_head(10, [1; 32], [2; 32]);
    head.apply_public_values(20, &outputs([7; 32], [8; 32])).unwrap();
    let cp = head.to_checkpoint();
    assert_eq!(
        cp,
        NoriBridgeCheckpoint { slot_head: 20, current_sync_commitee: [8; 32], next_sync_committee: [7; 32] }
    );
    let again = NoriBridgeHead::new(
        head.nb_checkpoint_location().clone(),
        head.bridge_mode(),
        StartPoint::Warm(cp),
    );
    assert_eq!(again.slot_head(), head.slot_head());
    assert_eq!(again.current_sync_committee(), head.current_sync_committee());
    assert_eq!(again.next_sync_committee(), head.next_sync_committee());
}

#[test]
fn mode_parses_through_from_str_trait() {
    assert_eq!("optimistic".parse::<NoriBridgeHeadMode>(), Ok(NoriBridgeHeadMode::Optimistic));
    assert!("fast".parse::<NoriBridgeHeadMode>().is_err());
}

#[test]
fn advance_if_stale_moves_a_stale_head() {
    let mut head = warm_head(10, [1; 32], [2; 32]);
    assert_eq!(head.advance_if_stale(20, &outputs([7; 32], [8; 32])), Ok(true));
    assert_eq!(head.slot_head(), 20);
    assert_eq!(head.next_sync_committee(), [7; 32]);
    assert_eq!(head.current_sync_committee(), [8; 32]);
}

#[test]
fn advance_if_stale_never_moves_backwards() {
    let mut head = warm_head(10, [1; 32], [2; 32]);
    assert_eq!(head.advance_if_stale(5, &outputs([7; 32], [8; 32])), Ok(false));
    assert_eq!(head.advance_if_stale(10, &outputs([7; 32], [8; 32])), Ok(false));
    assert_eq!(head.slot_head(), 10);
    assert_eq!(head.next_sync_committee(), [2; 32]);
    assert_eq!(head.current_sync_committee(), [1; 32]);
}

#[test]
fn advance_if_stale_rejects_bad_length() {
    let mut head = warm_head(10, [1; 32], [2; 32]);
    assert_eq!(head.advance_if_stale(20, &[0u8; 3]), Err(ProofOutputsError::InvalidLength));
    assert_eq!(head.slot_head(), 10);
}
