use miner::merkle::{merkle_root, witness_commitment};

fn dsha(data: &[u8]) -> [u8; 32] {
    let h = <bitcoin::hashes::sha256d::Hash as bitcoin::hashes::Hash>::hash(data);
    <bitcoin::hashes::sha256d::Hash as bitcoin::hashes::Hash>::to_byte_array(h)
}

fn cat(a: &[u8; 32], b: &[u8; 32]) -> Vec<u8> {
    let mut v = a.to_vec();
    v.extend_from_slice(b);
    v
}

#[test]
fn merkle_empty_input_is_rejected() {
    let leaves: Vec<[u8; 32]> = Vec::new();
    assert!(merkle_root(&leaves).is_none());
}

#[test]
fn merkle_single_leaf_is_returned_unchanged() {
    let leaf = [0xabu8; 32];
    let root = merkle_root(&vec![leaf]).unwrap();
    assert_eq!(root, leaf);
}

#[test]
fn merkle_two_leaves_hash_their_concatenation() {
    let a = [0x11u8; 32];
    let b = [0x22u8; 32];
    let root = merkle_root(&vec![a, b]).unwrap();
    assert_eq!(root, dsha(&cat(&a, &b)));
}

#[test]
fn merkle_three_leaves_duplicate_the_last() {
    let a = [0x01u8; 32];
    let b = [0x02u8; 32];
    let c = [0x03u8; 32];
    let root = merkle_root(&vec![a, b, c]).unwrap();
    let left = dsha(&cat(&a, &b));
    let right = dsha(&cat(&c, &c));
    assert_eq!(root, dsha(&cat(&left, &right)));
}

#[test]
fn merkle_four_leaves_match_reference_computation() {
    let leaves: Vec<[u8; 32]> = (0u8..4).map(|i| [i; 32]).collect();
    let root = merkle_root(&leaves).unwrap();
    let l01 = dsha(&cat(&leaves[0], &leaves[1]));
    let l23 = dsha(&cat(&leaves[2], &leaves[3]));
    assert_eq!(root, dsha(&cat(&l01, &l23)));
}

#[test]
fn merkle_recomputation_is_deterministic() {
    let leaves: Vec<[u8; 32]> = (0u8..5).map(|i| [i.wrapping_mul(37); 32]).collect();
    assert_eq!(merkle_root(&leaves).unwrap(), merkle_root(&leaves).unwrap());
}

#[test]
fn merkle_root_changes_when_a_leaf_changes() {
    let leaves: Vec<[u8; 32]> = (0u8..5).map(|i| [i; 32]).collect();
    let mut altered = leaves.clone();
    altered[3][0] ^= 1;
    assert_ne!(merkle_root(&leaves).unwrap(), merkle_root(&altered).unwrap());
}

#[test]
fn witness_commitment_of_empty_template() {
    // With no template transactions the leaf list is the single all-zero
    // placeholder, which is its own root; the commitment then salts and
    // hashes it twice.
    let zero = [0u8; 32];
    let expected = dsha(&dsha(&cat(&zero, &zero)));
    assert_eq!(witness_commitment(&Vec::new()), expected);
}

#[test]
fn witness_commitment_prepends_zero_leaf() {
    let w = [0x5au8; 32];
    let zero = [0u8; 32];
    let root = dsha(&cat(&zero, &w));
    let expected = dsha(&dsha(&cat(&root, &zero)));
    assert_eq!(witness_commitment(&vec![w]), expected);
}
