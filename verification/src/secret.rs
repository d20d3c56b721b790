//! The master-secret store: owns the single 32-byte root of trust and its
//! integrity checksum, with an init-once lifecycle.

use vstd::prelude::*;

use crate::bytes::eq_bytes;
use crate::bytes::sub_bytes;
use crate::crypto::{kmac256, kmac256_of, random_bytes};
use crate::KeyManagerError;

verus! {

/// The 32-byte high-entropy root of trust. The raw bytes never leave this
/// module except through the crate-private accessor that derivation uses.
pub struct MasterSecret {
    bytes: Vec<u8>,
}

impl View for MasterSecret {
    type V = Seq<u8>;

    closed spec fn view(&self) -> Seq<u8> {
        self.bytes@
    }
}

impl MasterSecret {
    pub open spec fn wf(self) -> bool {
        self@.len() == 32
    }

    pub(crate) fn bytes(&self) -> (r: &Vec<u8>)
        ensures
            r@ == self@,
    {
        &self.bytes
    }

    /// Builds a master secret from caller-supplied bytes, so replicas that
    /// share one secret agree on every derived key. Exactly 32 bytes are
    /// accepted.
    pub fn from_bytes(bytes: Vec<u8>) -> (r: Result<MasterSecret, KeyManagerError>)
        ensures
            (r is Ok) <==> bytes@.len() == 32,
            r matches Ok(s) ==> s@ == bytes@ && s.wf(),
            r matches Err(e) ==> e == KeyManagerError::InvalidRequest,
    {
        if bytes.len() == 32 {
            Ok(MasterSecret { bytes })
        } else {
            Err(KeyManagerError::InvalidRequest)
        }
    }
}

/// Domain-separation customization for the secret checksum
/// (the ASCII bytes of "checksum").
pub open spec fn checksum_custom_spec() -> Seq<u8> {
    seq![99u8, 104u8, 101u8, 99u8, 107u8, 115u8, 117u8, 109u8]
}

fn checksum_custom() -> (r: Vec<u8>)
    ensures
        r@ == checksum_custom_spec(),
{
    let mut r: Vec<u8> = Vec::new();
    r.push(99);
    r.push(104);
    r.push(101);
    r.push(99);
    r.push(107);
    r.push(115);
    r.push(117);
    r.push(109);
    proof {
        assert(r@ =~= checksum_custom_spec());
    }
    r
}

/// The checksum binding a master secret to this manager instance: a
/// KMAC256 keyed with the secret itself.
pub open spec fn checksum_spec(secret: Seq<u8>) -> Seq<u8> {
    kmac256_of(secret, checksum_custom_spec(), Seq::<u8>::empty(), 32)
}

/// Holds the master secret once initialized, together with its checksum.
/// The secret is write-once: it is generated by the first `init` and never
/// replaced afterwards.
pub struct SecretStore {
    secret: Option<MasterSecret>,
    checksum: Vec<u8>,
}

impl SecretStore {
    /// Whether a master secret has been established.
    pub closed spec fn initialized(self) -> bool {
        self.secret is Some
    }

    /// The bytes of the held secret (empty before initialization).
    pub closed spec fn secret_view(self) -> Seq<u8> {
        match self.secret {
            Some(s) => s@,
            None => Seq::<u8>::empty(),
        }
    }

    /// The stored checksum bytes (empty before initialization).
    pub closed spec fn checksum_view(self) -> Seq<u8> {
        self.checksum@
    }

    /// Once initialized, the secret is 32 bytes and the stored checksum is
    /// exactly the checksum of the secret.
    pub closed spec fn wf(self) -> bool {
        self.initialized() ==> (self.secret_view().len() == 32 && self.checksum_view()
            == checksum_spec(self.secret_view()) && self.checksum_view().len() == 32)
    }

    /// An empty store, before any secret exists.
    pub fn new() -> (s: SecretStore)
        ensures
            s.wf(),
            !s.initialized(),
    {
        SecretStore { secret: None, checksum: Vec::new() }
    }

    pub fn is_initialized(&self) -> (r: bool)
        ensures
            r == self.initialized(),
    {
        self.secret.is_some()
    }

    /// The held secret; only derivation and signing read it.
    pub(crate) fn secret(&self) -> (r: &MasterSecret)
        requires
            self.initialized(),
            self.wf(),
        ensures
            r@ == self.secret_view(),
            r.wf(),
    {
        match &self.secret {
            Some(s) => s,
            None => unreached(),
        }
    }

    /// Establishes the master secret. The first call generates a fresh
    /// 32-byte secret and returns its checksum; later calls are idempotent
    /// and return the same checksum. A later call that supplies an expected
    /// checksum disagreeing with the held one fails with
    /// `IntegrityMismatch` and changes nothing.
    pub fn init(&mut self, expected: Option<&Vec<u8>>) -> (r: Result<Vec<u8>, KeyManagerError>)
        requires
            old(self).wf(),
        ensures
            final(self).wf(),
            final(self).initialized(),
            final(self).checksum_view() == checksum_spec(final(self).secret_view()),
            final(self).secret_view().len() == 32,
            old(self).initialized() ==> final(self).secret_view() == old(self).secret_view()
                && final(self).checksum_view() == old(self).checksum_view(),
            (r is Err) <==> (old(self).initialized() && (expected matches Some(c) && c@ != old(
                self,
            ).checksum_view())),
            r matches Err(e) ==> e == KeyManagerError::IntegrityMismatch,
            r matches Ok(c) ==> c@ == final(self).checksum_view(),
    {
        if self.is_initialized() {
            let matches_expected = match expected {
                Some(c) => eq_bytes(c, &self.checksum),
                None => true,
            };
            if matches_expected {
                let c = sub_bytes(&self.checksum, 0, self.checksum.len());
                proof {
                    assert(self.checksum@.subrange(0, self.checksum@.len() as int)
                        =~= self.checksum@);
                }
                Ok(c)
            } else {
                Err(KeyManagerError::IntegrityMismatch)
            }
        } else {
            let bytes = random_bytes(32);
            let custom = checksum_custom();
            let empty: Vec<u8> = Vec::new();
            let checksum = kmac256(&bytes, &custom, &empty, 32);
            let c = sub_bytes(&checksum, 0, checksum.len());
            proof {
                assert(checksum@.subrange(0, checksum@.len() as int) =~= checksum@);
            }
            self.checksum = checksum;
            self.secret = Some(MasterSecret { bytes });
            Ok(c)
        }
    }
}

} // verus!
