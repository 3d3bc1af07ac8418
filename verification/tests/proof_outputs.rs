use sp1_helios_script::{ProofOutputsError, RustProofOutputs, Uint256};

fn sample_public_values() -> Vec<u8> {
    let mut bytes = Vec::new();
    for word in 0..7u8 {
        for i in 0..32u8 {
            bytes.push(word * 32 + i);
        }
    }
    bytes
}

#[test]
fn from_abi_reads_words_in_field_order() {
    let bytes = sample_public_values();
    let out = RustProofOutputs::from_abi(&bytes).unwrap();
    assert_eq!(&out.execution_state_root[..], &bytes[0..32]);
    assert_eq!(&out.new_header[..], &bytes[32..64]);
    assert_eq!(&out.next_sync_committee_hash[..], &bytes[64..96]);
    assert_eq!(&out.prev_header[..], &bytes[128..160]);
    assert_eq!(&out.sync_committee_hash[..], &bytes[192..224]);
}

#[test]
fn from_abi_reads_heads_big_endian() {
    let mut bytes = vec![0u8; 224];
    // new_head = 0x0102 in the last bytes of word 3
    bytes[126] = 0x01;
    bytes[127] = 0x02;
    // prev_head = 2^64 + 5: byte 23 of word 5 is 1, last byte is 5
    bytes[160 + 23] = 0x01;
    bytes[160 + 31] = 0x05;
    let out = RustProofOutputs::from_abi(&bytes).unwrap();
    assert_eq!(out.new_head.as_limbs(), [0x0102, 0, 0, 0]);
    assert_eq!(out.prev_head.as_limbs(), [5, 1, 0, 0]);
}

#[test]
fn from_abi_rejects_short_input() {
    let bytes = vec![0u8; 223];
    assert_eq!(RustProofOutputs::from_abi(&bytes), Err(ProofOutputsError::InvalidLength));
}

#[test]
fn from_abi_rejects_long_input() {
    let bytes = vec![0u8; 225];
    assert_eq!(RustProofOutputs::from_abi(&bytes), Err(ProofOutputsError::InvalidLength));
}

#[test]
fn from_abi_rejects_empty_input() {
    assert_eq!(RustProofOutputs::from_abi(&[]), Err(ProofOutputsError::InvalidLength));
}

#[test]
fn uint256_limbs_are_least_significant_first() {
    let mut word = [0u8; 32];
    for i in 0..32 {
        word[i] = i as u8;
    }
    let v = Uint256::from_be_bytes(word);
    assert_eq!(
        v.as_limbs(),
        [
            0x18191a1b1c1d1e1f,
            0x1011121314151617,
            0x08090a0b0c0d0e0f,
            0x0001020304050607,
        ]
    );
}

#[test]
fn uint256_max_value() {
    let v = Uint256::from_be_bytes([0xff; 32]);
    assert_eq!(v.as_limbs(), [u64::MAX; 4]);
}

#[test]
fn invalid_length_message() {
    let err = RustProofOutputs::from_abi(&[0u8; 225][..]).unwrap_err();
    assert_eq!(err.to_string(), "Invalid byte slice length");
}
