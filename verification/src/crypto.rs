//! Trusted boundary to the cryptographic primitives: KMAC256 digests,
//! X25519 public-key computation, secret generation and secure erasure.
//!
//! Every executable function here is `external_body`: its contract is
//! believed, not proved, and states only what the called crate's source
//! shows.

use vstd::prelude::*;

use crate::bytes::zero_seq;
use rand::Rng;
use zeroize::Zeroize;

verus! {

/// The KMAC256 digest of `data`, keyed with `key` and domain-separated by
/// `custom`, with `out_len` output bytes. The digest is a pure function of
/// these four arguments.
pub uninterp spec fn kmac256_of(key: Seq<u8>, custom: Seq<u8>, data: Seq<u8>, out_len: nat) -> Seq<u8>;

/// The X25519 public point obtained by multiplying the basepoint with the
/// (clamped) scalar. A pure function of the scalar bytes.
pub uninterp spec fn x25519_public_of(scalar: Seq<u8>) -> Seq<u8>;

/// Relies on `sp800_185::KMac::new_kmac256`/`update`/`finalize`: the digest
/// depends only on key, customization string, input data and requested
/// length, and fills exactly the requested number of bytes.
#[verifier::external_body]
pub(crate) fn kmac256(key: &Vec<u8>, custom: &Vec<u8>, data: &Vec<u8>, out_len: usize) -> (r: Vec<u8>)
    requires
        1 <= out_len,
    ensures
        r@ == kmac256_of(key@, custom@, data@, out_len as nat),
        r@.len() == out_len,
{
    let mut kmac = sp800_185::KMac::new_kmac256(key.as_slice(), custom.as_slice());
    kmac.update(data.as_slice());
    let mut out = vec![0u8; out_len];
    kmac.finalize(out.as_mut_slice());
    out
}

/// Relies on `x25519_dalek::x25519` with `X25519_BASEPOINT_BYTES`: the
/// 32-byte public point is a pure function of the scalar bytes.
#[verifier::external_body]
pub(crate) fn x25519_public(scalar: &Vec<u8>) -> (r: Vec<u8>)
    requires
        scalar@.len() == 32,
    ensures
        r@ == x25519_public_of(scalar@),
        r@.len() == 32,
{
    let mut k = [0u8; 32];
    k.copy_from_slice(scalar.as_slice());
    x25519_dalek::x25519(k, x25519_dalek::X25519_BASEPOINT_BYTES).to_vec()
}

/// Relies on `rand::rng().fill_bytes`: fills the buffer, so only the length
/// of the result is known; the contents are fresh randomness.
#[verifier::external_body]
pub(crate) fn random_bytes(len: usize) -> (r: Vec<u8>)
    ensures
        r@.len() == len,
{
    let mut buf = vec![0u8; len];
    rand::rng().fill_bytes(buf.as_mut_slice());
    buf
}

/// Relies on `zeroize::Zeroize for [u8]`: overwrites every byte with zero,
/// in place, without changing the length.
#[verifier::external_body]
pub(crate) fn erase_bytes(b: &mut Vec<u8>)
    ensures
        final(b)@ == zero_seq(old(b)@.len()),
{
    b.as_mut_slice().zeroize();
}

} // verus!
