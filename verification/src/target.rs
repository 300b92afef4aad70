//! The proof-of-work target: expanding a template's target buffer to the
//! full 32 bytes and comparing a header hash against it.
//!
//! A header hash is produced in the opposite byte order from the one the
//! target is supplied in, so the hash is read back to front and the two
//! buffers are then compared lexicographically from the most significant
//! byte; the hash wins only on a strict `<`.

use vstd::prelude::*;

verus! {

/// The byte sequence `s` read back to front.
pub open spec fn reverse_bytes(s: Seq<u8>) -> Seq<u8> {
    Seq::new(s.len(), |i: int| s[s.len() - 1 - i])
}

/// Strict lexicographic order on byte sequences of equal length: some
/// position holds a smaller byte and every earlier position agrees.
pub open spec fn lex_lt(a: Seq<u8>, b: Seq<u8>) -> bool {
    exists|i: int|
        0 <= i < a.len() && i < b.len() && #[trigger] a[i] < b[i] && (forall|j: int|
            0 <= j < i ==> a[j] == b[j])
}

/// A hash satisfies a target when the hash, read back to front, is
/// lexicographically strictly below the target.
pub open spec fn meets_target(hash: Seq<u8>, target: Seq<u8>) -> bool {
    lex_lt(reverse_bytes(hash), target)
}

/// The first 32 bytes of `t`, zero-padded at the low-order end when `t` is
/// shorter: missing bytes count as trailing zeros, keeping the
/// most-significant-byte-first reading of the buffer.
pub open spec fn spec_expand_target(t: Seq<u8>) -> Seq<u8> {
    Seq::new(32, |i: int| if i < t.len() { t[i] } else { 0u8 })
}

/// Takes at most 32 bytes from a template's target buffer and zero-pads
/// the remainder at the low-order end.
pub fn expand_target(t: &Vec<u8>) -> (r: [u8; 32])
    ensures
        r@ == spec_expand_target(t@),
{
    let mut r = [0u8; 32];
    let mut i: usize = 0;
    while i < 32
        invariant
            i <= 32,
            r@.len() == 32,
            forall|j: int| 0 <= j < i ==> r@[j] == spec_expand_target(t@)[j],
            forall|j: int| i <= j < 32 ==> r@[j] == 0u8,
        decreases 32 - i,
    {
        if i < t.len() {
            r[i] = t[i];
        }
        i = i + 1;
    }
    proof {
        assert(r@ =~= spec_expand_target(t@));
    }
    r
}

/// Decides whether `hash`, read back to front, is lexicographically
/// strictly below `target`.
pub fn hash_meets_target(hash: &[u8; 32], target: &[u8; 32]) -> (r: bool)
    ensures
        r == meets_target(hash@, target@),
{
    let ghost rev = reverse_bytes(hash@);
    let mut i: usize = 0;
    while i < 32
        invariant
            i <= 32,
            rev == reverse_bytes(hash@),
            rev.len() == 32,
            forall|j: int| 0 <= j < i ==> rev[j] == target@[j],
        decreases 32 - i,
    {
        let h = hash[31 - i];
        let t = target[i];
        proof {
            assert(rev[i as int] == hash@[31 - i as int]);
        }
        if h < t {
            proof {
                assert(lex_lt(rev, target@)) by {
                    assert(0 <= i < rev.len() && rev[i as int] < target@[i as int]);
                }
            }
            return true;
        }
        if h > t {
            proof {
                assert(!lex_lt(rev, target@)) by {
                    assert forall|k: int|
                        !(0 <= k < rev.len() && k < target@.len() && #[trigger] rev[k]
                            < target@[k] && (forall|j: int| 0 <= j < k ==> rev[j] == target@[j])) by {
                        if 0 <= k < 32 && rev[k] < target@[k] {
                            if k < i {
                                assert(rev[k] == target@[k]);
                            } else if k > i {
                                assert(!(forall|j: int| 0 <= j < k ==> rev[j] == target@[j])) by {
                                    assert(0 <= i < k && rev[i as int] != target@[i as int]);
                                }
                            }
                        }
                    }
                }
            }
            return false;
        }
        i = i + 1;
    }
    proof {
        assert(!lex_lt(rev, target@)) by {
            assert forall|k: int|
                !(0 <= k < rev.len() && k < target@.len() && #[trigger] rev[k] < target@[k] && (
                forall|j: int| 0 <= j < k ==> rev[j] == target@[j])) by {
                if 0 <= k < 32 {
                    assert(rev[k] == target@[k]);
                }
            }
        }
    }
    false
}

/// Every byte of `s` is zero.
pub open spec fn all_zero(s: Seq<u8>) -> bool {
    forall|i: int| 0 <= i < s.len() ==> s[i] == 0u8
}

/// An all-zero target is satisfied by no hash at all: the comparison is
/// strict, so not even the all-zero hash gets below it.
pub proof fn lemma_zero_target_admits_no_hash(hash: Seq<u8>, target: Seq<u8>)
    requires
        hash.len() == 32,
        target.len() == 32,
        all_zero(target),
    ensures
        !meets_target(hash, target),
{
    assert(!lex_lt(reverse_bytes(hash), target)) by {
        assert forall|k: int| 0 <= k < 32 implies !(#[trigger] reverse_bytes(hash)[k]
            < target[k]) by {
            assert(target[k] == 0u8);
        }
    }
}

/// A hash whose leading byte, in comparison order, is below the target's
/// leading byte satisfies the target whatever the remaining bytes hold.
pub proof fn lemma_smaller_leading_byte_meets(hash: Seq<u8>, target: Seq<u8>)
    requires
        hash.len() == 32,
        target.len() == 32,
        reverse_bytes(hash)[0] < target[0],
    ensures
        meets_target(hash, target),
{
    assert(lex_lt(reverse_bytes(hash), target)) by {
        assert(0 <= 0 < reverse_bytes(hash).len() && reverse_bytes(hash)[0] < target[0]);
    }
}

/// A hash that equals the target, read in comparison order, does not
/// satisfy it: the inequality is strict.
pub proof fn lemma_equal_hash_fails(hash: Seq<u8>, target: Seq<u8>)
    requires
        hash.len() == 32,
        target.len() == 32,
        reverse_bytes(hash) == target,
    ensures
        !meets_target(hash, target),
{
    assert(!lex_lt(reverse_bytes(hash), target)) by {
        assert forall|k: int| 0 <= k < 32 implies !(#[trigger] reverse_bytes(hash)[k]
            < target[k]) by {
            assert(reverse_bytes(hash)[k] == target[k]);
        }
    }
}

} // verus!
