//! The block assembler: from a template to the pieces the nonce search
//! needs — the coinbase transaction, the header merkle root over the
//! transaction ids with the coinbase first, and the 32-byte search
//! target.

use vstd::prelude::*;

use crate::coinbase::{
    build_coinbase, coinbase_txid_of, compute_coinbase_txid, spec_coinbase, CoinbaseTx,
};
use crate::merkle::{
    merkle_root, merkle_root_spec, spec_witness_commitment, views_of, witness_commitment,
};
use crate::target::{expand_target, spec_expand_target};

verus! {

/// One candidate transaction of a block template: its identifiers, its
/// raw consensus encoding, and metadata the core passes through
/// untouched.
pub struct TemplateTx {
    pub txid: [u8; 32],
    pub wtxid: [u8; 32],
    pub raw: Vec<u8>,
    pub fee: u64,
    pub weight: u64,
}

/// A node-supplied snapshot of the next block's contents: consumed once
/// per mining attempt.
pub struct BlockTemplate {
    pub previous_block_hash: [u8; 32],
    pub version: u32,
    pub target: Vec<u8>,
    pub coinbase_value: u64,
    pub transactions: Vec<TemplateTx>,
}

/// The witness identifiers of a template's transactions, in order.
pub open spec fn template_wtxids(txs: Seq<TemplateTx>) -> Seq<Seq<u8>> {
    txs.map(|i: int, t: TemplateTx| t.wtxid@)
}

/// The transaction identifiers of a template's transactions, in order.
pub open spec fn template_txids(txs: Seq<TemplateTx>) -> Seq<Seq<u8>> {
    txs.map(|i: int, t: TemplateTx| t.txid@)
}

/// What one mining attempt searches over: the freshly built coinbase,
/// the header merkle root, and the expanded 32-byte target.
pub struct BlockPlan {
    pub coinbase: CoinbaseTx,
    pub merkle_root: [u8; 32],
    pub target: [u8; 32],
}

/// Assembles one attempt at the block above chain height `height`: builds
/// the coinbase over the witness commitment of the template's
/// transactions, computes the header merkle root over the transaction
/// ids with the coinbase's first, and expands the template's target
/// buffer to the 32 bytes the search compares against.
pub fn assemble(
    template: &BlockTemplate,
    payout_script: Vec<u8>,
    height: u32,
    index: u64,
) -> (r: BlockPlan)
    ensures
        r.coinbase@ == spec_coinbase(
            template.coinbase_value,
            payout_script@,
            spec_witness_commitment(template_wtxids(template.transactions@)),
            height,
            index,
        ),
        r.merkle_root@ == merkle_root_spec(
            seq![coinbase_txid_of(r.coinbase@)] + template_txids(template.transactions@),
        ),
        r.target@ == spec_expand_target(template.target@),
{
    let mut wtxids: Vec<[u8; 32]> = Vec::new();
    let mut i: usize = 0;
    while i < template.transactions.len()
        invariant
            i <= template.transactions@.len(),
            wtxids@.len() == i,
            forall|j: int| 0 <= j < i ==> wtxids@[j] == template.transactions@[j].wtxid,
        decreases template.transactions@.len() - i,
    {
        wtxids.push(template.transactions[i].wtxid);
        i = i + 1;
    }
    proof {
        assert(views_of(wtxids@) =~= template_wtxids(template.transactions@));
    }
    let commitment = witness_commitment(&wtxids);
    let coinbase = build_coinbase(
        template.coinbase_value,
        payout_script,
        &commitment,
        height,
        index,
    );
    let coinbase_txid = compute_coinbase_txid(&coinbase);
    let mut txids: Vec<[u8; 32]> = Vec::new();
    txids.push(coinbase_txid);
    let mut k: usize = 0;
    while k < template.transactions.len()
        invariant
            k <= template.transactions@.len(),
            txids@.len() == k + 1,
            txids@[0] == coinbase_txid,
            forall|j: int| 0 <= j < k ==> txids@[j + 1] == template.transactions@[j].txid,
        decreases template.transactions@.len() - k,
    {
        txids.push(template.transactions[k].txid);
        k = k + 1;
    }
    proof {
        assert(views_of(txids@) =~= seq![coinbase_txid_of(coinbase@)] + template_txids(
            template.transactions@,
        ));
    }
    let root = match merkle_root(&txids) {
        Some(root) => root,
        None => {
            proof {
                assert(false);
            }
            coinbase_txid
        },
    };
    let target = expand_target(&template.target);
    BlockPlan { coinbase, merkle_root: root, target }
}

} // verus!
