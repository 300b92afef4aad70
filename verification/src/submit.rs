//! Classification of the upstream answer to a block submission.  The
//! node's answer arrives as an optional reason string, here as UTF-8
//! bytes: nothing for success, and otherwise either a rejection reason or
//! a transport failure.  A reason that marks the block as already known
//! or as inconclusive against a competing tip means the attempt was
//! superseded by another miner, which is no failure; everything else is a
//! retryable transport or protocol error.

use vstd::prelude::*;

verus! {

/// `needle` occurs in `haystack` at position `i`.
pub open spec fn contains_at(haystack: Seq<u8>, needle: Seq<u8>, i: int) -> bool {
    0 <= i && i + needle.len() <= haystack.len() && haystack.subrange(i, i + needle.len() as int)
        == needle
}

/// `needle` occurs somewhere in `haystack`.
pub open spec fn contains_seq(haystack: Seq<u8>, needle: Seq<u8>) -> bool {
    exists|i: int| contains_at(haystack, needle, i)
}

/// The bytes of "duplicate": the node already knows the block.
pub open spec fn duplicate_pattern() -> Seq<u8> {
    seq![0x64u8, 0x75u8, 0x70u8, 0x6cu8, 0x69u8, 0x63u8, 0x61u8, 0x74u8, 0x65u8]
}

/// The bytes of "inconclusive": the block does not extend the node's
/// current tip.
pub open spec fn inconclusive_pattern() -> Seq<u8> {
    seq![0x69u8, 0x6eu8, 0x63u8, 0x6fu8, 0x6eu8, 0x63u8, 0x6cu8, 0x75u8, 0x73u8, 0x69u8, 0x76u8, 0x65u8]
}

/// A rejection reason that marks the attempt as superseded rather than
/// failed: the node reports the block as already known or as
/// inconclusive against a competing tip.
pub open spec fn is_superseded_reason(s: Seq<u8>) -> bool {
    contains_seq(s, duplicate_pattern()) || contains_seq(s, inconclusive_pattern())
}

/// The outcome of pushing a mined block upstream.
pub enum SubmitOutcome {
    /// The submission succeeded; the caller moves on to the next height.
    Accepted,
    /// Another party's block was accepted first; the caller discards the
    /// attempt and fetches a fresh template without delay.
    Superseded,
    /// The upstream call failed for reasons unrelated to block validity;
    /// the caller logs the detail and retries the cycle.
    TransportError(Vec<u8>),
}

fn match_at(haystack: &Vec<u8>, needle: &Vec<u8>, i: usize) -> (r: bool)
    requires
        i + needle@.len() <= haystack@.len(),
    ensures
        r == contains_at(haystack@, needle@, i as int),
{
    let hay_len = haystack.len();
    let mut j: usize = 0;
    while j < needle.len()
        invariant
            i + needle@.len() <= haystack@.len(),
            haystack@.len() == hay_len,
            j <= needle@.len(),
            forall|k: int| 0 <= k < j ==> haystack@[i + k] == needle@[k],
        decreases needle@.len() - j,
    {
        if haystack[i + j] != needle[j] {
            proof {
                assert(haystack@.subrange(i as int, i + needle@.len() as int)[j as int]
                    == haystack@[i + j]);
            }
            return false;
        }
        j = j + 1;
    }
    proof {
        assert(haystack@.subrange(i as int, i + needle@.len() as int) =~= needle@);
    }
    true
}

fn contains_bytes(haystack: &Vec<u8>, needle: &Vec<u8>) -> (r: bool)
    ensures
        r == contains_seq(haystack@, needle@),
{
    if needle.len() > haystack.len() {
        return false;
    }
    if needle.len() == 0 {
        proof {
            assert(haystack@.subrange(0, 0) =~= needle@);
            assert(contains_at(haystack@, needle@, 0));
        }
        return true;
    }
    let bound = haystack.len() - needle.len();
    let mut i: usize = 0;
    while i <= bound
        invariant
            1 <= needle@.len() <= haystack@.len(),
            haystack@.len() <= usize::MAX,
            bound == haystack@.len() - needle@.len(),
            i <= bound + 1,
            forall|k: int| 0 <= k < i ==> !contains_at(haystack@, needle@, k),
        decreases bound + 1 - i,
    {
        if match_at(haystack, needle, i) {
            return true;
        }
        i = i + 1;
    }
    proof {
        assert forall|k: int| !contains_at(haystack@, needle@, k) by {
            if 0 <= k <= haystack@.len() - needle@.len() {
                assert(!contains_at(haystack@, needle@, k));
            }
        }
    }
    false
}

fn duplicate_needle() -> (r: Vec<u8>)
    ensures
        r@ == duplicate_pattern(),
{
    let mut r: Vec<u8> = Vec::new();
    r.push(0x64);
    r.push(0x75);
    r.push(0x70);
    r.push(0x6c);
    r.push(0x69);
    r.push(0x63);
    r.push(0x61);
    r.push(0x74);
    r.push(0x65);
    proof {
        assert(r@ =~= duplicate_pattern());
    }
    r
}

fn inconclusive_needle() -> (r: Vec<u8>)
    ensures
        r@ == inconclusive_pattern(),
{
    let mut r: Vec<u8> = Vec::new();
    r.push(0x69);
    r.push(0x6e);
    r.push(0x63);
    r.push(0x6f);
    r.push(0x6e);
    r.push(0x63);
    r.push(0x6c);
    r.push(0x75);
    r.push(0x73);
    r.push(0x69);
    r.push(0x76);
    r.push(0x65);
    proof {
        assert(r@ =~= inconclusive_pattern());
    }
    r
}

/// Classifies the upstream answer to a submission.  `reason` is `None`
/// when the call reported no error, and otherwise holds the error or
/// rejection detail as UTF-8 bytes.  An empty detail counts as success; a
/// superseding rejection is recognised by its reason; every other
/// non-empty detail is a transport error and is carried along unchanged.
pub fn classify_submission(reason: Option<Vec<u8>>) -> (r: SubmitOutcome)
    ensures
        match reason {
            None => r is Accepted,
            Some(s) => {
                if s@.len() == 0 {
                    r is Accepted
                } else if is_superseded_reason(s@) {
                    r is Superseded
                } else {
                    r matches SubmitOutcome::TransportError(d) && d@ == s@
                }
            },
        },
{
    match reason {
        None => SubmitOutcome::Accepted,
        Some(s) => {
            if s.len() == 0 {
                return SubmitOutcome::Accepted;
            }
            let dup = duplicate_needle();
            let inc = inconclusive_needle();
            if contains_bytes(&s, &dup) || contains_bytes(&s, &inc) {
                SubmitOutcome::Superseded
            } else {
                SubmitOutcome::TransportError(s)
            }
        },
    }
}

} // verus!
