//! The merkle engine: the root of an ordered list of 32-byte identifiers,
//! by the standard pairing scheme.  Adjacent pairs are double-SHA256
//! hashed; a level of odd length pairs its last element with itself; a
//! single element is the root itself, unhashed.  The witness-commitment
//! variant prepends an all-zero leaf for the coinbase, then commits the
//! root together with a 32-byte zero salt by two further double-SHA256
//! steps.

use vstd::prelude::*;

use crate::hashes::{sha256d, sha256d_of};

verus! {

/// The views of a sequence of 32-byte identifiers.
pub open spec fn views_of(s: Seq<[u8; 32]>) -> Seq<Seq<u8>> {
    s.map(|i: int, a: [u8; 32]| a@)
}

/// 32 zero bytes.
pub open spec fn zero32() -> Seq<u8> {
    Seq::new(32, |i: int| 0u8)
}

/// The parent of two adjacent nodes: the double-SHA256 digest of their
/// concatenation.
pub open spec fn hash_pair(a: Seq<u8>, b: Seq<u8>) -> Seq<u8> {
    sha256d_of(a + b)
}

/// One pairing round: adjacent elements are hashed pairwise, and an odd
/// trailing element is paired with itself.
pub open spec fn next_level(level: Seq<Seq<u8>>) -> Seq<Seq<u8>>
    decreases level.len(),
{
    if level.len() == 0 {
        Seq::empty()
    } else if level.len() == 1 {
        seq![hash_pair(level[0], level[0])]
    } else {
        seq![hash_pair(level[0], level[1])] + next_level(level.skip(2))
    }
}

pub proof fn lemma_next_level_len(level: Seq<Seq<u8>>)
    ensures
        next_level(level).len() == (level.len() + 1) / 2,
    decreases level.len(),
{
    if level.len() >= 2 {
        lemma_next_level_len(level.skip(2));
    }
}

/// Element `j` of a pairing round is the hash of elements `2j` and
/// `2j + 1` of the level below, the last element standing in for a
/// missing partner.
pub proof fn lemma_next_level_index(level: Seq<Seq<u8>>, j: int)
    requires
        0 <= j,
        2 * j < level.len(),
    ensures
        next_level(level).len() == (level.len() + 1) / 2,
        next_level(level)[j] == if 2 * j + 1 < level.len() {
            hash_pair(level[2 * j], level[2 * j + 1])
        } else {
            hash_pair(level[2 * j], level[2 * j])
        },
    decreases j,
{
    lemma_next_level_len(level);
    if j > 0 {
        lemma_next_level_index(level.skip(2), j - 1);
        assert(level.skip(2)[2 * (j - 1)] == level[2 * j]);
        if 2 * j + 1 < level.len() {
            assert(level.skip(2)[2 * (j - 1) + 1] == level[2 * j + 1]);
        }
    }
}

/// The merkle root of a non-empty level: pairing rounds until one element
/// remains; a single element is returned unchanged.
pub open spec fn merkle_root_spec(level: Seq<Seq<u8>>) -> Seq<u8>
    recommends
        level.len() >= 1,
    decreases level.len()
        via merkle_root_spec_decreases
{
    if level.len() <= 1 {
        if level.len() == 1 {
            level[0]
        } else {
            Seq::empty()
        }
    } else {
        merkle_root_spec(next_level(level))
    }
}

#[via_fn]
proof fn merkle_root_spec_decreases(level: Seq<Seq<u8>>) {
    if level.len() >= 2 {
        lemma_next_level_len(level);
    }
}

/// A single leaf is its own root, unhashed.
pub proof fn lemma_merkle_single(leaf: Seq<u8>)
    ensures
        merkle_root_spec(seq![leaf]) == leaf,
{
}

/// The root of two leaves is the double-SHA256 digest of their
/// concatenation.
pub proof fn lemma_merkle_pair(a: Seq<u8>, b: Seq<u8>)
    ensures
        merkle_root_spec(seq![a, b]) == sha256d_of(a + b),
{
    let level = seq![a, b];
    assert(level.skip(2) =~= Seq::<Seq<u8>>::empty());
    assert(next_level(Seq::<Seq<u8>>::empty()) =~= Seq::<Seq<u8>>::empty());
    assert(next_level(level) =~= seq![hash_pair(a, b)]);
    lemma_merkle_single(hash_pair(a, b));
}

/// With three leaves the last is paired with itself to even out the first
/// round, and the root hashes the two resulting parents.
pub proof fn lemma_merkle_three(a: Seq<u8>, b: Seq<u8>, c: Seq<u8>)
    ensures
        merkle_root_spec(seq![a, b, c]) == sha256d_of(
            sha256d_of(a + b) + sha256d_of(c + c),
        ),
{
    let level = seq![a, b, c];
    assert(level.skip(2) =~= seq![c]);
    assert(next_level(seq![c]) =~= seq![hash_pair(c, c)]);
    assert(next_level(level) =~= seq![hash_pair(a, b), hash_pair(c, c)]);
    lemma_merkle_pair(hash_pair(a, b), hash_pair(c, c));
}

/// One byte vector holding `a` followed by `b`.
fn concat_32(a: &[u8; 32], b: &[u8; 32]) -> (r: Vec<u8>)
    ensures
        r@ == a@ + b@,
{
    let mut r: Vec<u8> = Vec::new();
    let mut i: usize = 0;
    while i < 32
        invariant
            i <= 32,
            r@ == a@.subrange(0, i as int),
        decreases 32 - i,
    {
        r.push(a[i]);
        proof {
            assert(r@ =~= a@.subrange(0, i + 1));
        }
        i = i + 1;
    }
    proof {
        assert(r@ =~= a@);
    }
    let mut j: usize = 0;
    while j < 32
        invariant
            j <= 32,
            r@ == a@ + b@.subrange(0, j as int),
        decreases 32 - j,
    {
        r.push(b[j]);
        proof {
            assert(r@ =~= a@ + b@.subrange(0, j + 1));
        }
        j = j + 1;
    }
    proof {
        assert(r@ =~= a@ + b@);
    }
    r
}

/// The merkle root of a non-empty list of 32-byte identifiers; `None`
/// exactly on empty input, which is invalid.
pub fn merkle_root(leaves: &Vec<[u8; 32]>) -> (r: Option<[u8; 32]>)
    ensures
        r is Some <==> leaves@.len() >= 1,
        r matches Some(x) ==> x@ == merkle_root_spec(views_of(leaves@)),
{
    if leaves.len() == 0 {
        return None;
    }
    let mut level: Vec<[u8; 32]> = Vec::new();
    let mut i: usize = 0;
    while i < leaves.len()
        invariant
            i <= leaves@.len(),
            level@ == leaves@.subrange(0, i as int),
        decreases leaves@.len() - i,
    {
        level.push(leaves[i]);
        proof {
            assert(level@ =~= leaves@.subrange(0, i + 1));
        }
        i = i + 1;
    }
    proof {
        assert(level@ =~= leaves@);
    }
    while level.len() >= 2
        invariant
            1 <= level@.len(),
            merkle_root_spec(views_of(level@)) == merkle_root_spec(views_of(leaves@)),
        decreases level@.len(),
    {
        let ghost prev = views_of(level@);
        proof {
            lemma_next_level_len(prev);
        }
        let mut next: Vec<[u8; 32]> = Vec::new();
        let mut k: usize = 0;
        while k + 1 < level.len()
            invariant
                level@.len() >= 2,
                prev == views_of(level@),
                next_level(prev).len() == (prev.len() + 1) / 2,
                k == 2 * next@.len(),
                k <= level@.len(),
                views_of(next@) == next_level(prev).subrange(0, next@.len() as int),
            decreases level@.len() - k,
        {
            let a = level[k];
            let b = level[k + 1];
            let cat = concat_32(&a, &b);
            let h = sha256d(cat.as_slice());
            proof {
                lemma_next_level_index(prev, next@.len() as int);
                assert(prev[2 * next@.len() as int] == a@);
                assert(prev[2 * next@.len() as int + 1] == b@);
                assert(next_level(prev)[next@.len() as int] == sha256d_of(a@ + b@));
            }
            next.push(h);
            proof {
                assert(views_of(next@) =~= next_level(prev).subrange(0, next@.len() as int));
            }
            k = k + 2;
        }
        if k < level.len() {
            let a = level[k];
            let cat = concat_32(&a, &a);
            let h = sha256d(cat.as_slice());
            proof {
                lemma_next_level_index(prev, next@.len() as int);
                assert(prev[2 * next@.len() as int] == a@);
                assert(next_level(prev)[next@.len() as int] == sha256d_of(a@ + a@));
            }
            next.push(h);
            proof {
                assert(views_of(next@) =~= next_level(prev).subrange(0, next@.len() as int));
            }
        }
        proof {
            assert(next@.len() == (prev.len() + 1) / 2);
            assert(views_of(next@) =~= next_level(prev));
        }
        level = next;
    }
    proof {
        assert(views_of(level@)[0] == level@[0]@);
    }
    Some(level[0])
}

/// The witness commitment over the witness identifiers of a template's
/// transactions: an all-zero leaf stands in for the coinbase's own
/// witness id, the root over that list is concatenated with a 32-byte
/// zero salt and double-SHA256 hashed, and that digest is double-SHA256
/// hashed once more, committing the salt itself.
pub open spec fn spec_witness_commitment(wtxids: Seq<Seq<u8>>) -> Seq<u8> {
    sha256d_of(sha256d_of(merkle_root_spec(seq![zero32()] + wtxids) + zero32()))
}

pub fn witness_commitment(wtxids: &Vec<[u8; 32]>) -> (r: [u8; 32])
    ensures
        r@ == spec_witness_commitment(views_of(wtxids@)),
{
    let zero = [0u8; 32];
    proof {
        assert(zero@ =~= zero32());
    }
    let mut leaves: Vec<[u8; 32]> = Vec::new();
    leaves.push(zero);
    let mut i: usize = 0;
    while i < wtxids.len()
        invariant
            i <= wtxids@.len(),
            leaves@ == seq![zero] + wtxids@.subrange(0, i as int),
            zero@ == zero32(),
        decreases wtxids@.len() - i,
    {
        leaves.push(wtxids[i]);
        proof {
            assert(leaves@ =~= seq![zero] + wtxids@.subrange(0, i + 1));
        }
        i = i + 1;
    }
    proof {
        assert(leaves@ =~= seq![zero] + wtxids@);
        assert(views_of(leaves@) =~= seq![zero32()] + views_of(wtxids@));
    }
    let root = match merkle_root(&leaves) {
        Some(root) => root,
        None => {
            proof {
                assert(false);
            }
            zero
        },
    };
    let cat = concat_32(&root, &zero);
    let salted = sha256d(cat.as_slice());
    let commitment = sha256d(salted.as_slice());
    commitment
}

} // verus!
