use miner::coinbase::{build_coinbase, height_script};

#[test]
fn height_script_for_height_zero() {
    // The block above height 0 has height 1: one data byte.
    assert_eq!(height_script(0), vec![1, 1]);
}

#[test]
fn height_script_for_height_one() {
    assert_eq!(height_script(1), vec![1, 2]);
}

#[test]
fn height_script_below_sign_boundary() {
    // Height 126 commits 127, the largest single-byte value without the
    // high bit.
    assert_eq!(height_script(126), vec![1, 127]);
}

#[test]
fn height_script_at_sign_boundary_appends_zero() {
    // Height 127 commits 128, whose single byte carries the high bit: a
    // zero byte disambiguates it from a negative number.
    assert_eq!(height_script(127), vec![2, 0x80, 0x00]);
}

#[test]
fn height_script_for_two_byte_height() {
    // Height 255 commits 256 = 0x0100, little-endian [0x00, 0x01].
    assert_eq!(height_script(255), vec![2, 0x00, 0x01]);
}

#[test]
fn height_script_at_top_of_three_byte_range() {
    // Height 16_777_215 commits 16_777_216 = 0x01000000.
    assert_eq!(height_script(16_777_215), vec![4, 0x00, 0x00, 0x00, 0x01]);
}

#[test]
fn height_script_prefix_counts_data_bytes() {
    for h in [0u32, 1, 2, 126, 127, 128, 255, 256, 65_535, 65_536, 8_388_607, 16_777_215, u32::MAX]
    {
        let s = height_script(h);
        assert_eq!(s[0] as usize, s.len() - 1, "height {}", h);
        // Decoding the data bytes little-endian gives the committed
        // height, the one above h.
        let mut v: u64 = 0;
        for (k, b) in s[1..].iter().enumerate() {
            v += (*b as u64) << (8 * k);
        }
        assert_eq!(v, h as u64 + 1, "height {}", h);
    }
}

#[test]
fn height_script_matches_script_number_encoding() {
    // The bytes after the prefix are the minimal script-number push the
    // reference implementation produces.  Heights whose commitment is 16
    // or less are left out: the reference builder emits the small-number
    // opcodes for those instead of a data push.
    for h in [16u32, 127, 128, 255, 256, 32_767, 32_768, 16_777_215] {
        let s = height_script(h);
        let reference = bitcoin::blockdata::script::Builder::new()
            .push_int(h as i64 + 1)
            .into_script();
        assert_eq!(s, reference.as_bytes().to_vec(), "height {}", h);
    }
}

#[test]
fn coinbase_structure() {
    let payout = vec![0x00, 0x14, 0xaa, 0xbb];
    let commitment = [0x77u8; 32];
    let cb = build_coinbase(5_000_000_000, payout.clone(), &commitment, 100, 3);

    assert_eq!(cb.version, 2);
    assert_eq!(cb.lock_time, 0);
    assert_eq!(cb.prev_txid, [0u8; 32]);
    assert_eq!(cb.prev_vout, 0xffffffff);
    assert_eq!(cb.sequence, 0xfffffffd);
    assert_eq!(cb.script_sig, height_script(100));

    assert_eq!(cb.witness.len(), 1);
    assert_eq!(cb.witness[0], vec![0u8; 32]);

    assert_eq!(cb.outputs.len(), 3);
    assert_eq!(cb.outputs[0].value, 5_000_000_000);
    assert_eq!(cb.outputs[0].script_pubkey, payout);

    assert_eq!(cb.outputs[1].value, 0);
    let mut witness_script = vec![0x6a, 0x24, 0xaa, 0x21, 0xa9, 0xed];
    witness_script.extend_from_slice(&commitment);
    assert_eq!(cb.outputs[1].script_pubkey, witness_script);

    assert_eq!(cb.outputs[2].value, 0);
    let mut index_script = vec![0x6a, 0x08];
    index_script.extend_from_slice(&3u64.to_be_bytes());
    assert_eq!(cb.outputs[2].script_pubkey, index_script);
}
