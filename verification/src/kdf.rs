//! Deterministic per-identity key derivation: stretches the master secret
//! into a contract key with a domain-separated KMAC256, clamps the private
//! scalar, and computes the matching X25519 public point.

use vstd::prelude::*;

use crate::bytes::{concat_bytes, sub_bytes};
use crate::crypto::{kmac256, kmac256_of, x25519_public, x25519_public_of};
use crate::keys::{key_view_wf, ContractKey, Identity};
use crate::secret::MasterSecret;

verus! {

/// Domain-separation customization for contract-key derivation
/// (the ASCII bytes of "derive").
pub open spec fn derive_custom_spec() -> Seq<u8> {
    seq![100u8, 101u8, 114u8, 105u8, 118u8, 101u8]
}

fn derive_custom() -> (r: Vec<u8>)
    ensures
        r@ == derive_custom_spec(),
{
    let mut r: Vec<u8> = Vec::new();
    r.push(100);
    r.push(101);
    r.push(114);
    r.push(105);
    r.push(118);
    r.push(101);
    proof {
        assert(r@ =~= derive_custom_spec());
    }
    r
}

/// The bytes fed to the derivation hash for an identity: runtime id
/// followed by contract id.
pub open spec fn identity_bytes(id: (Seq<u8>, Seq<u8>)) -> Seq<u8> {
    id.0 + id.1
}

/// X25519 clamping of a 32-byte scalar seed: clear the three low bits of
/// the first byte, clear the top bit and set the second-highest bit of the
/// last byte.
pub open spec fn clamp_spec(s: Seq<u8>) -> Seq<u8> {
    s.update(0, s[0] & 248u8).update(31, (s[31] & 127u8) | 64u8)
}

/// The 64 bytes of output key material for an identity.
pub open spec fn okm_spec(secret: Seq<u8>, id: (Seq<u8>, Seq<u8>)) -> Seq<u8> {
    kmac256_of(secret, derive_custom_spec(), identity_bytes(id), 64)
}

/// The derived private scalar: first 32 bytes of the key material, clamped.
pub open spec fn derived_sk(secret: Seq<u8>, id: (Seq<u8>, Seq<u8>)) -> Seq<u8> {
    clamp_spec(okm_spec(secret, id).subrange(0, 32))
}

/// The derived symmetric state key: last 32 bytes of the key material.
pub open spec fn derived_state_key(secret: Seq<u8>, id: (Seq<u8>, Seq<u8>)) -> Seq<u8> {
    okm_spec(secret, id).subrange(32, 64)
}

/// The derived public key: X25519 public point of the derived scalar.
pub open spec fn derived_pk(secret: Seq<u8>, id: (Seq<u8>, Seq<u8>)) -> Seq<u8> {
    x25519_public_of(derived_sk(secret, id))
}

/// The whole derived contract key, as a view triple (pk, sk, state key).
/// A pure function of master secret and identity alone.
pub open spec fn derived_key(secret: Seq<u8>, id: (Seq<u8>, Seq<u8>)) -> (Seq<u8>, Seq<u8>, Seq<u8>) {
    (derived_pk(secret, id), derived_sk(secret, id), derived_state_key(secret, id))
}

fn clamp(s: &Vec<u8>) -> (r: Vec<u8>)
    requires
        s@.len() == 32,
    ensures
        r@ == clamp_spec(s@),
{
    let mut r: Vec<u8> = Vec::new();
    let mut i: usize = 0;
    while i < 32
        invariant
            s@.len() == 32,
            i <= 32,
            r@.len() == i as nat,
            forall|j: int| 0 <= j < i ==> r@[j] == clamp_spec(s@)[j],
        decreases 32 - i,
    {
        let mut b: u8 = s[i];
        if i == 0 {
            b = b & 248;
        }
        if i == 31 {
            b = (b & 127) | 64;
        }
        r.push(b);
        i = i + 1;
    }
    proof {
        assert(r@ =~= clamp_spec(s@));
    }
    r
}

/// Derives the contract key of `id` from the master secret: a KMAC256 of
/// the identity bytes keyed with the secret yields 64 bytes of key
/// material; the first half, clamped, is the exchange private scalar, the
/// second half the state key.
pub fn derive(secret: &MasterSecret, id: &Identity) -> (k: ContractKey)
    requires
        secret.wf(),
    ensures
        k@ == derived_key(secret@, id@),
        k.wf(),
{
    let data = concat_bytes(&id.runtime_id, &id.contract_id);
    let custom = derive_custom();
    let okm = kmac256(secret.bytes(), &custom, &data, 64);
    let seed = sub_bytes(&okm, 0, 32);
    let sk = clamp(&seed);
    let pk = x25519_public(&sk);
    let state_key = sub_bytes(&okm, 32, 64);
    let k = ContractKey { pk, sk, state_key };
    proof {
        assert(clamp_spec(seed@).len() == 32);
    }
    k
}

/// Law: derivation is deterministic. Two contract keys derived from the
/// same master secret and the same identity are byte-identical, so
/// independently running replicas that share the secret agree without
/// communication.
pub proof fn lemma_derive_deterministic(
    k1: ContractKey,
    k2: ContractKey,
    secret: Seq<u8>,
    id: (Seq<u8>, Seq<u8>),
)
    requires
        k1@ == derived_key(secret, id),
        k2@ == derived_key(secret, id),
    ensures
        k1.pk@ == k2.pk@,
        k1.sk@ == k2.sk@,
        k1.state_key@ == k2.state_key@,
{
}

} // verus!
