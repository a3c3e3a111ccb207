//! Message integrity: SHA-1 digests of frame bodies.

use vstd::prelude::*;
use sha1::Digest;
use sha1::Sha1;

verus! {

/// The SHA-1 digest of a byte sequence, as the `sha1` crate computes it.
/// The digest is a function of the input bytes alone.
pub uninterp spec fn sha1_of(data: Seq<u8>) -> Seq<u8>;

/// `sha1_of` padded (or truncated) to exactly 20 bytes.  `sha1_digest`
/// guarantees that the real digest has 20 bytes, so on every digest the
/// library ever computes the two agree; unlike `sha1_of`, this form has a
/// known length, which the wire-layout specifications need.
pub open spec fn sha1_bytes(data: Seq<u8>) -> Seq<u8> {
    Seq::new(20, |i: int| if 0 <= i < sha1_of(data).len() { sha1_of(data)[i] } else { 0u8 })
}

pub proof fn lemma_sha1_bytes_agrees(data: Seq<u8>)
    requires
        sha1_of(data).len() == 20,
    ensures
        sha1_bytes(data) == sha1_of(data),
{
    assert(sha1_bytes(data) =~= sha1_of(data));
}

/// Relies on `sha1::Sha1` (`Digest::digest`): hashes the input and returns
/// its 20-byte SHA-1 digest, a pure function of the input bytes.
#[verifier::external_body]
pub(crate) fn sha1_digest(data: &[u8]) -> (r: Vec<u8>)
    ensures
        r@ == sha1_of(data@),
        r@.len() == 20,
{
    Sha1::digest(data).to_vec()
}

/// Computes the SHA-1 digest of `data` as a plain byte vector.
pub fn body_digest(data: &[u8]) -> (r: Vec<u8>)
    ensures
        r@ == sha1_bytes(data@),
        r@.len() == 20,
{
    let r = sha1_digest(data);
    proof {
        lemma_sha1_bytes_agrees(data@);
    }
    r
}

} // verus!
