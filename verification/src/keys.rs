//! The value types of the key manager: workload identities, derived
//! contract keys, and signed public keys.

use vstd::prelude::*;

use crate::KeyManagerError;
use crate::MAX_KEY_TIMESTAMP;

verus! {

/// Names a confidential workload instance: a 256-bit runtime id and a
/// 256-bit contract id. Caller-supplied; only ever stored as a cache key.
#[derive(Clone, PartialEq, Eq, Hash, Debug)]
pub struct Identity {
    pub runtime_id: Vec<u8>,
    pub contract_id: Vec<u8>,
}

impl View for Identity {
    type V = (Seq<u8>, Seq<u8>);

    open spec fn view(&self) -> (Seq<u8>, Seq<u8>) {
        (self.runtime_id@, self.contract_id@)
    }
}

/// A well-formed identity view: both ids are exactly 32 bytes.
pub open spec fn id_view_wf(id: (Seq<u8>, Seq<u8>)) -> bool {
    id.0.len() == 32 && id.1.len() == 32
}

impl Identity {
    pub open spec fn wf(self) -> bool {
        id_view_wf(self@)
    }

    /// Builds an identity, rejecting ids that are not exactly 32 bytes.
    pub fn new(runtime_id: Vec<u8>, contract_id: Vec<u8>) -> (r: Result<Identity, KeyManagerError>)
        ensures
            (r is Ok) <==> (runtime_id@.len() == 32 && contract_id@.len() == 32),
            r matches Ok(id) ==> id@ == (runtime_id@, contract_id@) && id.wf(),
            r matches Err(e) ==> e == KeyManagerError::InvalidRequest,
    {
        if runtime_id.len() == 32 && contract_id.len() == 32 {
            Ok(Identity { runtime_id, contract_id })
        } else {
            Err(KeyManagerError::InvalidRequest)
        }
    }
}

/// Per-identity derived key material: an X25519 exchange keypair and a
/// symmetric state-encryption key. The private fields are erased when the
/// key is evicted from the cache.
#[derive(Clone, PartialEq, Eq, Debug)]
pub struct ContractKey {
    /// Public half of the exchange keypair.
    pub pk: Vec<u8>,
    /// Private scalar of the exchange keypair.
    pub sk: Vec<u8>,
    /// Symmetric state-encryption key.
    pub state_key: Vec<u8>,
}

impl View for ContractKey {
    type V = (Seq<u8>, Seq<u8>, Seq<u8>);

    open spec fn view(&self) -> (Seq<u8>, Seq<u8>, Seq<u8>) {
        (self.pk@, self.sk@, self.state_key@)
    }
}

/// A well-formed contract-key view: all three parts are 32 bytes.
pub open spec fn key_view_wf(k: (Seq<u8>, Seq<u8>, Seq<u8>)) -> bool {
    k.0.len() == 32 && k.1.len() == 32 && k.2.len() == 32
}

impl ContractKey {
    pub open spec fn wf(self) -> bool {
        key_view_wf(self@)
    }
}

/// The distributable public half of a contract key: the public key bytes,
/// a signature binding them to this manager instance, and an optional
/// expiry timestamp.
#[derive(Clone, PartialEq, Eq, Debug)]
pub struct SignedPublicKey {
    pub key: Vec<u8>,
    pub signature: Vec<u8>,
    pub expiry: Option<u64>,
}

impl SignedPublicKey {
    /// Any expiry carried by a signed public key stays representable in an
    /// IEEE-754 double.
    pub open spec fn wf(self) -> bool {
        match self.expiry {
            Some(t) => t <= MAX_KEY_TIMESTAMP,
            None => true,
        }
    }
}

} // verus!
