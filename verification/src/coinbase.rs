//! The coinbase builder: the height commitment that opens the signature
//! script, the witness-commitment and index outputs, and the transaction
//! that carries them.  The height is encoded dynamically: the minimal
//! little-endian representation of the new block's height, with one zero
//! byte appended when the top byte would otherwise read as a sign bit,
//! behind a one-byte length prefix.

use bitcoin::{Amount, OutPoint, ScriptBuf, Sequence, Transaction, TxIn, TxOut, Txid, Witness};
use vstd::prelude::*;

use crate::merkle::zero32;

verus! {

/// The minimal little-endian bytes of `v`: empty for zero, low byte
/// first, never a trailing zero byte.
pub open spec fn le_min_bytes(v: nat) -> Seq<u8>
    decreases v,
{
    if v == 0 {
        Seq::empty()
    } else {
        seq![(v % 256) as u8] + le_min_bytes(v / 256)
    }
}

/// The value of a byte sequence read as a little-endian number.
pub open spec fn le_value(s: Seq<u8>) -> nat
    decreases s.len(),
{
    if s.len() == 0 {
        0
    } else {
        (s[0] as nat) + 256 * le_value(s.skip(1))
    }
}

/// The script-number encoding of a positive value: its minimal
/// little-endian bytes, with one zero byte appended when the top byte
/// carries the high bit and would otherwise be read as a sign.
pub open spec fn scriptnum_bytes(v: nat) -> Seq<u8>
    recommends
        v >= 1,
{
    let m = le_min_bytes(v);
    if m.len() > 0 && m.last() >= 0x80 {
        m + seq![0u8]
    } else {
        m
    }
}

/// The height commitment that opens the coinbase signature script, for a
/// current chain height of `height`: a one-byte length prefix followed by
/// the script-number encoding of `height + 1`, the height of the block
/// being built.
pub open spec fn spec_height_script(height: u32) -> Seq<u8> {
    seq![scriptnum_bytes((height + 1) as nat).len() as u8] + scriptnum_bytes((height + 1) as nat)
}

/// Reading the minimal little-endian bytes back gives the value.
pub proof fn lemma_le_min_bytes_value(v: nat)
    ensures
        le_value(le_min_bytes(v)) == v,
    decreases v,
{
    if v > 0 {
        lemma_le_min_bytes_value(v / 256);
        assert(le_min_bytes(v).skip(1) =~= le_min_bytes(v / 256));
    }
}

/// A positive value's minimal bytes are non-empty and end in a non-zero
/// byte: the encoding carries no superfluous trailing zero.
pub proof fn lemma_le_min_bytes_minimal(v: nat)
    requires
        v >= 1,
    ensures
        le_min_bytes(v).len() >= 1,
        le_min_bytes(v).last() != 0,
    decreases v,
{
    let m = le_min_bytes(v);
    let m2 = le_min_bytes(v / 256);
    assert(m == seq![(v % 256) as u8] + m2);
    if v / 256 > 0 {
        lemma_le_min_bytes_minimal(v / 256);
        assert(m.last() == m[1 + m2.len() - 1]);
        assert(m[1 + m2.len() - 1] == m2[m2.len() - 1]);
    } else {
        assert(m =~= seq![(v % 256) as u8]);
        assert(v % 256 == v);
    }
}

/// A trailing zero byte does not change the little-endian value.
pub proof fn lemma_le_value_append_zero(s: Seq<u8>)
    ensures
        le_value(s + seq![0u8]) == le_value(s),
    decreases s.len(),
{
    if s.len() == 0 {
        assert(s + seq![0u8] =~= seq![0u8]);
        assert((seq![0u8]).skip(1) =~= Seq::<u8>::empty());
        assert(le_value(Seq::<u8>::empty()) == 0);
        assert(le_value(seq![0u8]) == 0);
    } else {
        lemma_le_value_append_zero(s.skip(1));
        assert((s + seq![0u8]).skip(1) =~= s.skip(1) + seq![0u8]);
        assert((s + seq![0u8])[0] == s[0]);
        assert(le_value(s + seq![0u8]) == ((s + seq![0u8])[0] as nat) + 256 * le_value(
            (s + seq![0u8]).skip(1),
        ));
        assert(le_value(s) == (s[0] as nat) + 256 * le_value(s.skip(1)));
    }
}

/// Reading the script-number encoding back gives the value.
pub proof fn lemma_scriptnum_decodes(v: nat)
    ensures
        le_value(scriptnum_bytes(v)) == v,
{
    lemma_le_min_bytes_value(v);
    lemma_le_value_append_zero(le_min_bytes(v));
}

/// Values below 2^33 take at most five minimal bytes.
proof fn lemma_le_min_bytes_len5(v: nat)
    requires
        v < 0x10000000000,
    ensures
        le_min_bytes(v).len() <= 5,
{
    let v1 = v / 256;
    let v2 = v1 / 256;
    let v3 = v2 / 256;
    let v4 = v3 / 256;
    let v5 = v4 / 256;
    assert(v5 == 0);
    assert(le_min_bytes(v5) =~= Seq::<u8>::empty());
    assert(le_min_bytes(v4).len() <= 1);
    assert(le_min_bytes(v3).len() <= 2);
    assert(le_min_bytes(v2).len() <= 3);
    assert(le_min_bytes(v1).len() <= 4);
    assert(le_min_bytes(v).len() <= 5);
}

/// The height commitment for the block above height `height`: the
/// length-prefix byte counts exactly the data bytes that follow, and
/// those bytes decode, as a little-endian number, to `height + 1`.
pub fn height_script(height: u32) -> (r: Vec<u8>)
    ensures
        r@ == spec_height_script(height),
        r@.len() >= 2,
        r@[0] == r@.len() - 1,
        le_value(r@.skip(1)) == height + 1,
{
    let v0: u64 = height as u64 + 1;
    proof {
        lemma_le_min_bytes_len5(v0 as nat);
        lemma_le_min_bytes_minimal(v0 as nat);
        lemma_scriptnum_decodes(v0 as nat);
    }
    let mut data: Vec<u8> = Vec::new();
    let mut rem: u64 = v0;
    while rem > 0
        invariant
            le_min_bytes(v0 as nat) == data@ + le_min_bytes(rem as nat),
            le_min_bytes(v0 as nat).len() <= 5,
            data@.len() <= 5,
        decreases rem,
    {
        let b: u8 = (rem % 256) as u8;
        data.push(b);
        proof {
            assert(le_min_bytes(rem as nat) == seq![b] + le_min_bytes((rem / 256) as nat));
            assert(le_min_bytes(v0 as nat) =~= data@ + le_min_bytes((rem / 256) as nat));
        }
        rem = rem / 256;
    }
    proof {
        assert(le_min_bytes(0nat) =~= Seq::<u8>::empty());
        assert(data@ =~= le_min_bytes(v0 as nat));
    }
    let top = data[data.len() - 1];
    if top >= 0x80 {
        data.push(0);
    }
    proof {
        assert(data@ == scriptnum_bytes(v0 as nat));
    }
    let mut r: Vec<u8> = Vec::new();
    r.push(data.len() as u8);
    let mut i: usize = 0;
    while i < data.len()
        invariant
            i <= data@.len(),
            data@ == scriptnum_bytes(v0 as nat),
            data@.len() <= 6,
            r@ == seq![data@.len() as u8] + data@.subrange(0, i as int),
        decreases data@.len() - i,
    {
        r.push(data[i]);
        proof {
            assert(r@ =~= seq![data@.len() as u8] + data@.subrange(0, i + 1));
        }
        i = i + 1;
    }
    proof {
        assert(r@ =~= seq![data@.len() as u8] + data@);
        assert(r@.skip(1) =~= data@);
    }
    r
}

/// The length-prefix byte of the height commitment counts the data bytes,
/// and the encoding is minimal: the last data byte is zero only as the
/// one disambiguation byte after a high top byte, and is otherwise free
/// of the high bit.
pub proof fn lemma_height_script_minimal(height: u32)
    ensures
        spec_height_script(height)[0] == spec_height_script(height).len() - 1,
        le_value(spec_height_script(height).skip(1)) == height + 1,
        spec_height_script(height).last() == 0 ==> spec_height_script(height).len() >= 3
            && spec_height_script(height)[spec_height_script(height).len() - 2] >= 0x80,
        spec_height_script(height).last() != 0 ==> spec_height_script(height).last() < 0x80,
{
    let v = (height + 1) as nat;
    lemma_le_min_bytes_len5(v);
    lemma_le_min_bytes_minimal(v);
    lemma_scriptnum_decodes(v);
    assert(spec_height_script(height).skip(1) =~= scriptnum_bytes(v));
    let m = le_min_bytes(v);
    if m.last() >= 0x80 {
        assert(scriptnum_bytes(v) == m + seq![0u8]);
        assert(scriptnum_bytes(v)[scriptnum_bytes(v).len() - 2] == m.last());
    }
}

/// One transaction output: a value in satoshis and its locking script.
pub struct TxOutput {
    pub value: u64,
    pub script_pubkey: Vec<u8>,
}

#[verifier::ext_equal]
pub struct TxOutputView {
    pub value: u64,
    pub script_pubkey: Seq<u8>,
}

impl View for TxOutput {
    type V = TxOutputView;

    open spec fn view(&self) -> TxOutputView {
        TxOutputView { value: self.value, script_pubkey: self.script_pubkey@ }
    }
}

/// The coinbase transaction of one mining attempt.
pub struct CoinbaseTx {
    pub version: i32,
    pub lock_time: u32,
    pub prev_txid: [u8; 32],
    pub prev_vout: u32,
    pub script_sig: Vec<u8>,
    pub sequence: u32,
    pub witness: Vec<Vec<u8>>,
    pub outputs: Vec<TxOutput>,
}

#[verifier::ext_equal]
pub struct CoinbaseTxView {
    pub version: i32,
    pub lock_time: u32,
    pub prev_txid: Seq<u8>,
    pub prev_vout: u32,
    pub script_sig: Seq<u8>,
    pub sequence: u32,
    pub witness: Seq<Seq<u8>>,
    pub outputs: Seq<TxOutputView>,
}

impl View for CoinbaseTx {
    type V = CoinbaseTxView;

    open spec fn view(&self) -> CoinbaseTxView {
        CoinbaseTxView {
            version: self.version,
            lock_time: self.lock_time,
            prev_txid: self.prev_txid@,
            prev_vout: self.prev_vout,
            script_sig: self.script_sig@,
            sequence: self.sequence,
            witness: self.witness@.map(|i: int, w: Vec<u8>| w@),
            outputs: self.outputs@.map(|i: int, o: TxOutput| o@),
        }
    }
}

/// OP_RETURN and a 36-byte push: the prefix of the witness-commitment
/// output's script.
pub open spec fn witness_commitment_prefix() -> Seq<u8> {
    seq![0x6au8, 0x24u8, 0xaau8, 0x21u8, 0xa9u8, 0xedu8]
}

/// OP_RETURN and an 8-byte push: the prefix of the auxiliary index
/// output's script.
pub open spec fn index_prefix() -> Seq<u8> {
    seq![0x6au8, 0x08u8]
}

/// The big-endian bytes of a 64-bit value.
pub open spec fn u64_be_bytes(x: u64) -> Seq<u8> {
    Seq::new(8, |i: int| ((x >> (((7 - i) * 8) as u64)) & 0xff) as u8)
}

fn witness_commitment_script(commitment: &[u8; 32]) -> (r: Vec<u8>)
    ensures
        r@ == witness_commitment_prefix() + commitment@,
{
    let mut r: Vec<u8> = Vec::new();
    r.push(0x6a);
    r.push(0x24);
    r.push(0xaa);
    r.push(0x21);
    r.push(0xa9);
    r.push(0xed);
    proof {
        assert(r@ =~= witness_commitment_prefix() + commitment@.subrange(0, 0));
    }
    let mut i: usize = 0;
    while i < 32
        invariant
            i <= 32,
            r@ == witness_commitment_prefix() + commitment@.subrange(0, i as int),
        decreases 32 - i,
    {
        r.push(commitment[i]);
        proof {
            assert(r@ =~= witness_commitment_prefix() + commitment@.subrange(0, i + 1));
        }
        i = i + 1;
    }
    proof {
        assert(r@ =~= witness_commitment_prefix() + commitment@);
    }
    r
}

fn index_script(index: u64) -> (r: Vec<u8>)
    ensures
        r@ == index_prefix() + u64_be_bytes(index),
{
    let mut r: Vec<u8> = Vec::new();
    r.push(0x6a);
    r.push(0x08);
    proof {
        assert(r@ =~= index_prefix() + u64_be_bytes(index).subrange(0, 0));
    }
    let mut i: usize = 0;
    while i < 8
        invariant
            i <= 8,
            r@ == index_prefix() + u64_be_bytes(index).subrange(0, i as int),
        decreases 8 - i,
    {
        let sh: u64 = (7 - i) as u64 * 8;
        let b: u8 = ((index >> sh) & 0xff) as u8;
        proof {
            assert(b == u64_be_bytes(index)[i as int]);
        }
        r.push(b);
        proof {
            assert(r@ =~= index_prefix() + u64_be_bytes(index).subrange(0, i + 1));
        }
        i = i + 1;
    }
    proof {
        assert(r@ =~= index_prefix() + u64_be_bytes(index));
    }
    r
}

fn zero_vec32() -> (r: Vec<u8>)
    ensures
        r@ == zero32(),
{
    let mut r: Vec<u8> = Vec::new();
    let mut i: usize = 0;
    while i < 32
        invariant
            i <= 32,
            r@.len() == i,
            forall|j: int| 0 <= j < i ==> r@[j] == 0u8,
        decreases 32 - i,
    {
        r.push(0);
        i = i + 1;
    }
    proof {
        assert(r@ =~= zero32());
    }
    r
}

/// The coinbase of one mining attempt: version 2, lock time zero, one
/// input spending the null outpoint (all-zero id, index 0xffffffff) with
/// the height commitment opening its signature script and one 32-byte
/// zero witness item, and three outputs: the payout, the zero-value
/// witness commitment, and the zero-value index tag carrying the
/// big-endian index.
pub open spec fn spec_coinbase(
    value: u64,
    payout_script: Seq<u8>,
    commitment: Seq<u8>,
    height: u32,
    index: u64,
) -> CoinbaseTxView {
    CoinbaseTxView {
        version: 2,
        lock_time: 0,
        prev_txid: zero32(),
        prev_vout: 0xffffffffu32,
        script_sig: spec_height_script(height),
        sequence: 0xfffffffdu32,
        witness: seq![zero32()],
        outputs: seq![
            TxOutputView { value: value, script_pubkey: payout_script },
            TxOutputView { value: 0u64, script_pubkey: witness_commitment_prefix() + commitment },
            TxOutputView { value: 0u64, script_pubkey: index_prefix() + u64_be_bytes(index) },
        ],
    }
}

/// Builds the coinbase transaction for one attempt at the block above
/// chain height `height`, paying `value` satoshis to `payout_script` and
/// committing to the witness root and the configured index.
pub fn build_coinbase(
    value: u64,
    payout_script: Vec<u8>,
    commitment: &[u8; 32],
    height: u32,
    index: u64,
) -> (r: CoinbaseTx)
    ensures
        r@ == spec_coinbase(value, payout_script@, commitment@, height, index),
{
    let script_sig = height_script(height);
    let mut witness: Vec<Vec<u8>> = Vec::new();
    witness.push(zero_vec32());
    let mut outputs: Vec<TxOutput> = Vec::new();
    outputs.push(TxOutput { value, script_pubkey: payout_script });
    outputs.push(TxOutput { value: 0, script_pubkey: witness_commitment_script(commitment) });
    outputs.push(TxOutput { value: 0, script_pubkey: index_script(index) });
    let r = CoinbaseTx {
        version: 2,
        lock_time: 0,
        prev_txid: [0u8; 32],
        prev_vout: 0xffffffff,
        script_sig,
        sequence: 0xfffffffd,
        witness,
        outputs,
    };
    proof {
        let s = spec_coinbase(value, payout_script@, commitment@, height, index);
        assert(r@.prev_txid =~= s.prev_txid);
        assert(r@.witness =~= s.witness);
        assert(r@.outputs =~= s.outputs);
        assert(r@ =~= s);
    }
    r
}

/// The transaction id of a coinbase transaction, a function of its fields
/// alone: the double-SHA256 digest of the consensus serialization without
/// witness data.  The serialization is supplied by an outside crate, so
/// the id is named rather than written out.
pub uninterp spec fn coinbase_txid_of(tx: CoinbaseTxView) -> Seq<u8>;

/// Relies on `bitcoin::Transaction::compute_txid`: the transaction id, in
/// the hash's own byte order, a function of the transaction's fields
/// alone.
#[verifier::external_body]
pub(crate) fn compute_coinbase_txid(tx: &CoinbaseTx) -> (r: [u8; 32])
    ensures
        r@ == coinbase_txid_of(tx@),
{
    let input = vec![TxIn {
        previous_output: OutPoint { txid: <Txid as bitcoin::hashes::Hash>::from_byte_array(tx.prev_txid), vout: tx.prev_vout },
        script_sig: ScriptBuf::from(tx.script_sig.clone()),
        sequence: Sequence(tx.sequence),
        witness: Witness::from_slice(&tx.witness),
    }];
    let output = tx.outputs.iter().map(|o| TxOut { value: Amount::from_sat(o.value), script_pubkey: ScriptBuf::from(o.script_pubkey.clone()) }).collect();
    let t = Transaction { version: bitcoin::transaction::Version(tx.version), lock_time: bitcoin::absolute::LockTime::from_consensus(tx.lock_time), input, output };
    <Txid as bitcoin::hashes::Hash>::to_byte_array(t.compute_txid())
}

} // verus!
