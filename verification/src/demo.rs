//! The demo backend: a fixed composition of two standard hashes.
//!
//! The digest of a preimage `p` is `SHA-512(SHA-256(p) || p)`, hex-encoded
//! lowercase. It is deterministic, never fails, and is always 128 hex digits
//! long.

use vstd::prelude::*;
use crate::hexcode::{all_lower_hex, hex_bytes_of, hex_encode, lemma_hex_bytes_of_is_hex};
use sha2::Digest;

verus! {

/// The SHA-256 digest of a byte sequence: 32 bytes, a function of the input
/// alone.
pub uninterp spec fn sha256_of(data: Seq<u8>) -> Seq<u8>;

/// The SHA-512 digest of a byte sequence: 64 bytes, a function of the input
/// alone.
pub uninterp spec fn sha512_of(data: Seq<u8>) -> Seq<u8>;

/// Relies on `sha2::Sha256`: a deterministic digest of 32 bytes.
#[verifier::external_body]
fn sha256(data: &[u8]) -> (r: Vec<u8>)
    ensures
        r@ == sha256_of(data@),
        r@.len() == 32,
{
    sha2::Sha256::digest(data).to_vec()
}

/// Relies on `sha2::Sha512`: a deterministic digest of 64 bytes.
#[verifier::external_body]
fn sha512(data: &[u8]) -> (r: Vec<u8>)
    ensures
        r@ == sha512_of(data@),
        r@.len() == 64,
{
    sha2::Sha512::digest(data).to_vec()
}

/// The demo backend's response to a preimage, as hex text.
pub open spec fn demo_digest_spec(pre: Seq<u8>) -> Seq<u8> {
    hex_bytes_of(sha512_of(sha256_of(pre) + pre))
}

/// Computes the demo digest of a preimage: SHA-512 over the preimage's
/// SHA-256 digest followed by the preimage itself, hex-encoded lowercase.
/// Pure and total: equal preimages give equal responses, of 128 hex digits.
pub fn demo_hash_hex(pre: &[u8]) -> (r: Vec<u8>)
    ensures
        r@ == demo_digest_spec(pre@),
        r@.len() == 128,
        all_lower_hex(r@),
{
    let inner = sha256(pre);
    let mut buf = inner;
    proof {
        assert(sha256_of(pre@) + pre@.take(0) =~= sha256_of(pre@));
    }
    let mut i: usize = 0;
    while i < pre.len()
        invariant
            i <= pre@.len(),
            buf@ == sha256_of(pre@) + pre@.take(i as int),
        decreases pre@.len() - i,
    {
        proof {
            assert((sha256_of(pre@) + pre@.take(i as int)).push(pre@[i as int]) =~= sha256_of(pre@)
                + pre@.take(i as int + 1));
        }
        buf.push(pre[i]);
        i += 1;
    }
    proof {
        assert(sha256_of(pre@) + pre@.take(pre@.len() as int) =~= sha256_of(pre@) + pre@);
    }
    let outer = sha512(buf.as_slice());
    proof {
        lemma_hex_bytes_of_is_hex(outer@);
    }
    hex_encode(outer.as_slice())
}

} // verus!
