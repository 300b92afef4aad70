use miner::mining::{check_interval, partition_nonce_space, search_range, DIFFICULTY_BITS};

#[test]
fn single_worker_gets_the_full_range() {
    let ranges = partition_nonce_space(1);
    assert_eq!(ranges.len(), 1);
    assert_eq!(ranges[0].start, 0);
    assert_eq!(ranges[0].end, u32::MAX);
}

#[test]
fn partition_covers_the_space_without_gap_or_overlap() {
    for n in [2u32, 3, 7, 16] {
        let ranges = partition_nonce_space(n);
        assert_eq!(ranges.len(), n as usize, "workers {}", n);
        assert_eq!(ranges[0].start, 0);
        assert_eq!(ranges[n as usize - 1].end, u32::MAX);
        for w in ranges.windows(2) {
            assert_eq!(w[0].end as u64 + 1, w[1].start as u64, "workers {}", n);
        }
        for r in &ranges {
            assert!(r.start <= r.end);
        }
    }
}

#[test]
fn partition_ranges_are_near_equal() {
    let ranges = partition_nonce_space(4);
    let per = u32::MAX / 4;
    for (i, r) in ranges.iter().enumerate().take(3) {
        assert_eq!(r.end - r.start + 1, per, "worker {}", i);
    }
}

#[test]
fn check_interval_is_coarse_but_never_zero() {
    assert_eq!(check_interval(0, u32::MAX), u32::MAX / 1_048_576);
    assert_eq!(check_interval(0, 100), 1);
    assert_eq!(check_interval(5, 5), 1);
}

#[test]
fn search_finds_nothing_against_a_zero_target() {
    let target = [0u8; 32];
    let found = search_range(0, 200, &[0x11u8; 32], &[0x22u8; 32], 0x2000_0000, &target);
    assert!(found.is_none());
}

#[test]
fn search_returns_a_header_that_meets_an_easy_target() {
    
    let prev = [0x33u8; 32];
    let root = [0x44u8; 32];
    let version: u32 = 0x2000_0000;
    // The leading target byte 0x08 admits one hash in 32.
    let mut target = [0u8; 32];
    target[0] = 0x08;

    let header = search_range(0, 300_000, &prev, &root, version, &target)
        .expect("an easy target should be met within the budget");

    assert_eq!(header.version, version);
    assert_eq!(header.prev_blockhash, prev);
    assert_eq!(header.merkle_root, root);
    assert_eq!(header.bits, DIFFICULTY_BITS);
    assert!(header.nonce <= 300_000);

    // Recompute the hash independently and compare in search order.
    let hdr = bitcoin::block::Header {
        version: bitcoin::block::Version::from_consensus(header.version as i32),
        prev_blockhash: <bitcoin::BlockHash as bitcoin::hashes::Hash>::from_byte_array(header.prev_blockhash),
        merkle_root: <bitcoin::TxMerkleNode as bitcoin::hashes::Hash>::from_byte_array(header.merkle_root),
        time: header.time,
        bits: bitcoin::CompactTarget::from_consensus(header.bits),
        nonce: header.nonce,
    };
    let mut hash = <bitcoin::BlockHash as bitcoin::hashes::Hash>::to_byte_array(hdr.block_hash());
    hash.reverse();
    assert!(&hash[..] < &target[..]);
}
