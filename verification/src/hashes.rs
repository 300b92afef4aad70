//! The double-SHA256 digest, taken from an outside crate and named for the
//! contracts: everything the library states about hashing goes through the
//! name `sha256d_of`.

use vstd::prelude::*;

verus! {

/// The double-SHA256 digest of `data`.  The digest is a function of the
/// input bytes alone; it is named here rather than written out, and the
/// trusted wrapper below ties the name to the outside implementation.
pub uninterp spec fn sha256d_of(data: Seq<u8>) -> Seq<u8>;

/// Relies on `bitcoin::hashes::sha256d::Hash::hash`: the 32-byte
/// double-SHA256 digest of the input bytes, a function of the input alone.
#[verifier::external_body]
pub(crate) fn sha256d(data: &[u8]) -> (r: [u8; 32])
    ensures
        r@ == sha256d_of(data@),
{
    let h = <bitcoin::hashes::sha256d::Hash as bitcoin::hashes::Hash>::hash(data);
    <bitcoin::hashes::sha256d::Hash as bitcoin::hashes::Hash>::to_byte_array(h)
}

} // verus!
