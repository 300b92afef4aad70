//! The mining scheduler's verified parts: the block header, the
//! partitioning of the 32-bit nonce space across workers, the coarse
//! cancellation-check interval, and the hash-search loop over one
//! sub-range.  Spawning workers and passing the winning header between
//! them is plain concurrency and lives with the caller; each worker calls
//! `search_range` chunk by chunk and checks its shared stop flag in
//! between.

use vstd::arithmetic::div_mod::{lemma_fundamental_div_mod, lemma_mod_bound};
use vstd::arithmetic::mul::lemma_mul_inequality;
use vstd::prelude::*;

use crate::target::{hash_meets_target, meets_target};

verus! {

/// The difficulty field written into every header: a fixed easy value
/// rather than the template's own encoding, as the node this miner
/// drives accepts it.
pub const DIFFICULTY_BITS: u32 = 0x207fffff;

/// A block header: the 80-byte unit of hashing.
pub struct BlockHeader {
    pub version: u32,
    pub prev_blockhash: [u8; 32],
    pub merkle_root: [u8; 32],
    pub time: u32,
    pub bits: u32,
    pub nonce: u32,
}

/// The double-SHA256 digest of the serialized header, in the hash's own
/// byte order: a function of the six header fields alone, named rather
/// than written out since the serialization is supplied by an outside
/// crate.
pub uninterp spec fn header_hash_of(
    version: u32,
    prev: Seq<u8>,
    merkle: Seq<u8>,
    time: u32,
    bits: u32,
    nonce: u32,
) -> Seq<u8>;

/// The hash of a header value.
pub open spec fn spec_header_hash(h: BlockHeader) -> Seq<u8> {
    header_hash_of(h.version, h.prev_blockhash@, h.merkle_root@, h.time, h.bits, h.nonce)
}

/// Relies on `bitcoin::block::Header::block_hash`: the double-SHA256
/// digest of the 80-byte serialized header, a function of the six fields
/// alone, returned in the hash's own byte order.
#[verifier::external_body]
pub(crate) fn compute_header_hash(h: &BlockHeader) -> (r: [u8; 32])
    ensures
        r@ == header_hash_of(h.version, h.prev_blockhash@, h.merkle_root@, h.time, h.bits, h.nonce),
{
    let hdr = bitcoin::block::Header {
        version: bitcoin::block::Version::from_consensus(h.version as i32),
        prev_blockhash: <bitcoin::BlockHash as bitcoin::hashes::Hash>::from_byte_array(h.prev_blockhash),
        merkle_root: <bitcoin::TxMerkleNode as bitcoin::hashes::Hash>::from_byte_array(h.merkle_root),
        time: h.time,
        bits: bitcoin::CompactTarget::from_consensus(h.bits),
        nonce: h.nonce,
    };
    <bitcoin::BlockHash as bitcoin::hashes::Hash>::to_byte_array(hdr.block_hash())
}

/// Relies on `chrono::Utc::now` for the wall clock.  The result varies
/// between calls, so nothing is stated of it.
#[verifier::external_body]
pub(crate) fn current_unix_time() -> u32 {
    chrono::Utc::now().timestamp() as u32
}

/// One worker's contiguous sub-range of the nonce space, both ends
/// inclusive.
#[derive(Clone, Copy, Debug, PartialEq, Eq, Structural)]
pub struct NonceRange {
    pub start: u32,
    pub end: u32,
}

/// Splits the full nonce space `[0, u32::MAX]` into `n` contiguous
/// sub-ranges of near-equal size; the last absorbs the remainder, so the
/// union covers the space exactly, with no gap and no overlap.
pub fn partition_nonce_space(n: u32) -> (r: Vec<NonceRange>)
    requires
        n >= 1,
    ensures
        r@.len() == n,
        r@[0].start == 0,
        r@[n - 1].end == u32::MAX,
        forall|j: int| 0 <= j < n ==> (#[trigger] r@[j]).start <= r@[j].end,
        forall|j: int| 0 <= j < n - 1 ==> (#[trigger] r@[j]).end + 1 == r@[j + 1].start,
{
    let per: u32 = u32::MAX / n;
    proof {
        lemma_fundamental_div_mod(u32::MAX as int, n as int);
        lemma_mod_bound(u32::MAX as int, n as int);
        assert(n * per <= u32::MAX);
        assert(per >= 1) by {
            if per == 0 {
                assert(n as int * 0 == 0);
                assert(u32::MAX as int == u32::MAX as int % n as int);
                assert((u32::MAX as int % n as int) < (n as int));
            }
        }
    }
    let mut r: Vec<NonceRange> = Vec::new();
    let mut i: u32 = 0;
    while i < n
        invariant
            1 <= n,
            per == u32::MAX as int / n as int,
            n * per <= u32::MAX,
            per >= 1,
            i <= n,
            r@.len() == i,
            forall|j: int| 0 <= j < i ==> (#[trigger] r@[j]).start == j * per,
            forall|j: int|
                0 <= j < i ==> (#[trigger] r@[j]).end == if j == n - 1 {
                    u32::MAX as int
                } else {
                    (j + 1) * per - 1
                },
        decreases n - i,
    {
        proof {
            lemma_mul_inequality(i as int + 1, n as int, per as int);
            assert((i + 1) * per <= n * per);
            assert((i + 1) * per == i * per + per) by (nonlinear_arith);
        }
        let start: u32 = ((i as u64) * (per as u64)) as u32;
        let end: u32 = if i == n - 1 {
            u32::MAX
        } else {
            (((i as u64) + 1) * (per as u64) - 1) as u32
        };
        proof {
            if i < n - 1 {
                assert(start <= end);
            } else {
                assert(start <= u32::MAX);
            }
        }
        r.push(NonceRange { start, end });
        i = i + 1;
    }
    proof {
        assert forall|j: int| 0 <= j < n implies (#[trigger] r@[j]).start <= r@[j].end by {
            lemma_mul_inequality(j + 1, n as int, per as int);
            assert((j + 1) * per == j * per + per) by (nonlinear_arith);
        }
        assert(r@[0].start == 0 * per);
    }
    r
}

/// Every nonce of the 32-bit space lies in a sub-range of a contiguous
/// partition, and in only one: the union is exact, without gap or
/// overlap.
pub proof fn lemma_partition_covers(r: Seq<NonceRange>, x: u32)
    requires
        r.len() >= 1,
        r[0].start == 0,
        r[r.len() - 1].end == u32::MAX,
        forall|j: int| 0 <= j < r.len() ==> (#[trigger] r[j]).start <= r[j].end,
        forall|j: int| 0 <= j < r.len() - 1 ==> (#[trigger] r[j]).end + 1 == r[j + 1].start,
    ensures
        exists|i: int| 0 <= i < r.len() && (#[trigger] r[i]).start <= x <= r[i].end,
        forall|i: int, j: int|
            0 <= i < r.len() && 0 <= j < r.len() && (#[trigger] r[i]).start <= x <= r[i].end && (
            #[trigger] r[j]).start <= x <= r[j].end ==> i == j,
{
    lemma_prefix_covers(r, r.len() - 1, x);
    assert forall|i: int, j: int|
        0 <= i < r.len() && 0 <= j < r.len() && (#[trigger] r[i]).start <= x <= r[i].end && (
        #[trigger] r[j]).start <= x <= r[j].end implies i == j by {
        if i < j {
            lemma_ranges_increase(r, i, j);
        } else if j < i {
            lemma_ranges_increase(r, j, i);
        }
    }
}

proof fn lemma_prefix_covers(r: Seq<NonceRange>, k: int, x: u32)
    requires
        r.len() >= 1,
        r[0].start == 0,
        forall|j: int| 0 <= j < r.len() ==> (#[trigger] r[j]).start <= r[j].end,
        forall|j: int| 0 <= j < r.len() - 1 ==> (#[trigger] r[j]).end + 1 == r[j + 1].start,
        0 <= k < r.len(),
        x <= r[k].end,
    ensures
        exists|i: int| 0 <= i <= k && (#[trigger] r[i]).start <= x <= r[i].end,
    decreases k,
{
    if r[k].start <= x {
        assert(0 <= k <= k && r[k].start <= x <= r[k].end);
    } else {
        assert(k > 0);
        assert(r[k - 1].end + 1 == r[k].start);
        lemma_prefix_covers(r, k - 1, x);
        assert forall|i: int|
            0 <= i <= k - 1 && (#[trigger] r[i]).start <= x <= r[i].end implies 0 <= i <= k && r[i].start
            <= x <= r[i].end by {}
    }
}

proof fn lemma_ranges_increase(r: Seq<NonceRange>, i: int, j: int)
    requires
        forall|k: int| 0 <= k < r.len() ==> (#[trigger] r[k]).start <= r[k].end,
        forall|k: int| 0 <= k < r.len() - 1 ==> (#[trigger] r[k]).end + 1 == r[k + 1].start,
        0 <= i < j < r.len(),
    ensures
        r[i].end < r[j].start,
    decreases j - i,
{
    if i + 1 < j {
        lemma_ranges_increase(r, i + 1, j);
    }
}

/// The coarse interval, in nonces, at which a worker looks at the shared
/// stop flag: roughly one look per 1/1,048,576th of its sub-range, and
/// never zero.
pub fn check_interval(start: u32, end: u32) -> (r: u32)
    requires
        start <= end,
    ensures
        r == if (end - start) / 0x100000 >= 1 {
            (end - start) as int / 0x100000
        } else {
            1int
        },
        r >= 1,
{
    let step = (end - start) / 1048576;
    if step == 0 {
        1
    } else {
        step
    }
}

/// Searches the sub-range `[start, end]` of the nonce space in increasing
/// order for a header whose hash satisfies the target.  The timestamp is
/// refreshed from the wall clock for every candidate, so each header is a
/// fresh value; a returned header carries the given fields, a nonce from
/// the sub-range, and a hash that satisfies the target.  `None` means the
/// sub-range was exhausted for the timestamps that were current as it was
/// walked.
pub fn search_range(
    start: u32,
    end: u32,
    prev_blockhash: &[u8; 32],
    merkle_root: &[u8; 32],
    version: u32,
    target: &[u8; 32],
) -> (r: Option<BlockHeader>)
    requires
        start <= end,
    ensures
        r matches Some(h) ==> {
            &&& h.version == version
            &&& h.prev_blockhash@ == prev_blockhash@
            &&& h.merkle_root@ == merkle_root@
            &&& h.bits == DIFFICULTY_BITS
            &&& start <= h.nonce <= end
            &&& meets_target(spec_header_hash(h), target@)
        },
{
    let mut nonce = start;
    loop
        invariant
            start <= nonce <= end,
        decreases end - nonce,
    {
        let time = current_unix_time();
        let header = BlockHeader {
            version,
            prev_blockhash: *prev_blockhash,
            merkle_root: *merkle_root,
            time,
            bits: DIFFICULTY_BITS,
            nonce,
        };
        let hash = compute_header_hash(&header);
        if hash_meets_target(&hash, target) {
            return Some(header);
        }
        if nonce == end {
            return None;
        }
        nonce = nonce + 1;
    }
}

} // verus!
