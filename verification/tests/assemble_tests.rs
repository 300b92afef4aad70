use miner::assemble::{assemble, BlockTemplate, TemplateTx};
use miner::coinbase::CoinbaseTx;
use miner::mining::search_range;

fn dsha(data: &[u8]) -> [u8; 32] {
    let h = <bitcoin::hashes::sha256d::Hash as bitcoin::hashes::Hash>::hash(data);
    <bitcoin::hashes::sha256d::Hash as bitcoin::hashes::Hash>::to_byte_array(h)
}

/// The same conversion the driver uses to hand the coinbase upstream.
fn to_bitcoin_tx(cb: &CoinbaseTx) -> bitcoin::Transaction {
    bitcoin::Transaction {
        version: bitcoin::transaction::Version(cb.version),
        lock_time: bitcoin::absolute::LockTime::from_consensus(cb.lock_time),
        input: vec![bitcoin::TxIn {
            previous_output: bitcoin::OutPoint {
                txid: <bitcoin::Txid as bitcoin::hashes::Hash>::from_byte_array(cb.prev_txid),
                vout: cb.prev_vout,
            },
            script_sig: bitcoin::ScriptBuf::from(cb.script_sig.clone()),
            sequence: bitcoin::Sequence(cb.sequence),
            witness: bitcoin::Witness::from_slice(&cb.witness),
        }],
        output: cb
            .outputs
            .iter()
            .map(|o| bitcoin::TxOut {
                value: bitcoin::Amount::from_sat(o.value),
                script_pubkey: bitcoin::ScriptBuf::from(o.script_pubkey.clone()),
            })
            .collect(),
    }
}

fn empty_template(target: Vec<u8>) -> BlockTemplate {
    BlockTemplate {
        previous_block_hash: [0x99u8; 32],
        version: 0x2000_0000,
        target,
        coinbase_value: 5_000_000_000,
        transactions: Vec::new(),
    }
}

#[test]
fn assembled_merkle_root_is_the_coinbase_txid_without_transactions() {
    let template = empty_template(vec![0x7f]);
    let plan = assemble(&template, vec![0x51], 42, 1);
    let expected = <bitcoin::Txid as bitcoin::hashes::Hash>::to_byte_array(
        to_bitcoin_tx(&plan.coinbase).compute_txid(),
    );
    assert_eq!(plan.merkle_root, expected);
}

#[test]
fn assembled_merkle_root_pairs_coinbase_with_template_transaction() {
    let mut template = empty_template(vec![0x7f]);
    let txid = [0x17u8; 32];
    template.transactions.push(TemplateTx {
        txid,
        wtxid: [0x18u8; 32],
        raw: vec![0x01, 0x02],
        fee: 1_000,
        weight: 400,
    });
    let plan = assemble(&template, vec![0x51], 42, 1);
    let cb_txid = <bitcoin::Txid as bitcoin::hashes::Hash>::to_byte_array(
        to_bitcoin_tx(&plan.coinbase).compute_txid(),
    );
    let mut cat = cb_txid.to_vec();
    cat.extend_from_slice(&txid);
    assert_eq!(plan.merkle_root, dsha(&cat));
}

#[test]
fn assembled_coinbase_commits_to_template_witnesses() {
    let mut template = empty_template(vec![0x7f]);
    template.transactions.push(TemplateTx {
        txid: [0x17u8; 32],
        wtxid: [0x18u8; 32],
        raw: vec![0x01, 0x02],
        fee: 1_000,
        weight: 400,
    });
    let plan = assemble(&template, vec![0x51], 42, 1);
    // Witness commitment recomputed by hand: zero placeholder leaf paired
    // with the one witness id, then salted and hashed twice.
    let zero = [0u8; 32];
    let mut cat = zero.to_vec();
    cat.extend_from_slice(&[0x18u8; 32]);
    let root = dsha(&cat);
    let mut salted = root.to_vec();
    salted.extend_from_slice(&zero);
    let expected = dsha(&dsha(&salted));
    let mut script = vec![0x6a, 0x24, 0xaa, 0x21, 0xa9, 0xed];
    script.extend_from_slice(&expected);
    assert_eq!(plan.coinbase.outputs[1].script_pubkey, script);
}

#[test]
fn assembled_target_is_expanded_to_32_bytes() {
    let template = empty_template(vec![0x00, 0x00, 0x00, 0x01]);
    let plan = assemble(&template, vec![0x51], 42, 1);
    let mut expected = [0u8; 32];
    expected[3] = 0x01;
    assert_eq!(plan.target, expected);
}

#[test]
fn end_to_end_easy_template_yields_a_winning_header() {
    // A template with no extra transactions, the full block reward, and a
    // target whose leading byte admits about half of all hashes.
    let mut target = vec![0u8; 32];
    target[0] = 0x7f;
    for b in target.iter_mut().skip(1) {
        *b = 0xff;
    }
    let template = empty_template(target.clone());
    let plan = assemble(&template, vec![0x51], 0, 1);
    assert_eq!(plan.coinbase.outputs[0].value, 5_000_000_000);

    let header = search_range(
        0,
        100_000,
        &template.previous_block_hash,
        &plan.merkle_root,
        template.version,
        &plan.target,
    )
    .expect("an easy target should be met within the budget");

    let hdr = bitcoin::block::Header {
        version: bitcoin::block::Version::from_consensus(header.version as i32),
        prev_blockhash: <bitcoin::BlockHash as bitcoin::hashes::Hash>::from_byte_array(header.prev_blockhash),
        merkle_root: <bitcoin::TxMerkleNode as bitcoin::hashes::Hash>::from_byte_array(header.merkle_root),
        time: header.time,
        bits: bitcoin::CompactTarget::from_consensus(header.bits),
        nonce: header.nonce,
    };
    let mut hash = <bitcoin::BlockHash as bitcoin::hashes::Hash>::to_byte_array(hdr.block_hash());
    hash.reverse();
    assert!(&hash[..] < &target[..]);
}
