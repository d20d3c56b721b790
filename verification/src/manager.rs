//! The key-manager facade: an init-once state machine composing the
//! secret store, the derivation engine and the key cache, with the
//! authentication gate and public-key signing for two trust lifetimes.

use vstd::prelude::*;

use crate::bytes::{concat_bytes, sub_bytes, u64_le, u64_le_spec};
use crate::cache::{entry_coherent, find_key, inc_sat, CacheEntry, KeyCache};
use crate::crypto::{kmac256, kmac256_of};
use crate::kdf::{derived_key, derived_pk};
use crate::keys::{ContractKey, Identity, SignedPublicKey};
use crate::secret::{checksum_spec, SecretStore};
use crate::secret::MasterSecret;
use crate::KeyManagerError;
use crate::MAX_KEY_TIMESTAMP;

verus! {

/// Opaque proof, handed over by the attestation subsystem, that the
/// caller was authenticated over a secure channel. The core only ever
/// tests its presence.
#[derive(Clone, Copy, Debug)]
pub struct Credential;

/// What `init` reports: whether this instance runs in a hardware-trusted
/// configuration, and the checksum of the held master secret.
#[derive(Clone, Debug)]
pub struct InitResponse {
    pub is_secure: bool,
    pub checksum: Vec<u8>,
}

/// Domain-separation customization for public-key signing
/// (the ASCII bytes of "sign-pk").
pub open spec fn signature_custom_spec() -> Seq<u8> {
    seq![115u8, 105u8, 103u8, 110u8, 45u8, 112u8, 107u8]
}

fn signature_custom() -> (r: Vec<u8>)
    ensures
        r@ == signature_custom_spec(),
{
    let mut r: Vec<u8> = Vec::new();
    r.push(115);
    r.push(105);
    r.push(103);
    r.push(110);
    r.push(45);
    r.push(112);
    r.push(107);
    proof {
        assert(r@ =~= signature_custom_spec());
    }
    r
}

/// The bytes covered by a public-key signature: the key bytes, then the
/// little-endian expiry when one is present.
pub open spec fn signed_message_spec(key: Seq<u8>, expiry: Option<u64>) -> Seq<u8> {
    match expiry {
        Some(t) => key + u64_le_spec(t),
        None => key,
    }
}

/// The signature over a public key and its expiry: a KMAC256 keyed with
/// the master secret, so the signing credential is tied to this manager
/// instance.
pub open spec fn sig_spec(secret: Seq<u8>, key: Seq<u8>, expiry: Option<u64>) -> Seq<u8> {
    kmac256_of(secret, signature_custom_spec(), signed_message_spec(key, expiry), 32)
}

/// Whether a requested expiry is representable (at most `2^53 - 1`).
pub open spec fn expiry_in_range(expiry: Option<u64>) -> bool {
    match expiry {
        Some(t) => t <= MAX_KEY_TIMESTAMP,
        None => true,
    }
}

fn sign_with(secret: &MasterSecret, key: Vec<u8>, expiry: Option<u64>) -> (spk: SignedPublicKey)
    requires
        secret.wf(),
        expiry_in_range(expiry),
    ensures
        spk.key@ == key@,
        spk.expiry == expiry,
        spk.signature@ == sig_spec(secret@, key@, expiry),
        spk.wf(),
{
    let custom = signature_custom();
    let msg: Vec<u8> = match &expiry {
        Some(t) => {
            let tail = u64_le(*t);
            concat_bytes(&key, &tail)
        },
        None => {
            let c = sub_bytes(&key, 0, key.len());
            proof {
                assert(key@.subrange(0, key@.len() as int) =~= key@);
            }
            c
        },
    };
    let signature = kmac256(secret.bytes(), &custom, &msg, 32);
    SignedPublicKey { key, signature, expiry }
}

/// What a session public-key lookup returns: nothing exactly when the
/// identity has no cached key; otherwise the cached public key, signed
/// with the maximal session expiry.
pub open spec fn session_key_result(
    m: KeyManager,
    id: (Seq<u8>, Seq<u8>),
    r: Option<SignedPublicKey>,
) -> bool {
    &&& ((r is Some) <==> find_key(m.entries(), id) != -1)
    &&& (r matches Some(spk) ==> spk.key@ == m.entries()[find_key(m.entries(), id)].1.0
        && spk.key@ == derived_pk(m.secret_view(), id) && spk.expiry == Some(MAX_KEY_TIMESTAMP)
        && spk.signature@ == sig_spec(m.secret_view(), spk.key@, Some(MAX_KEY_TIMESTAMP))
        && spk.wf())
}

/// What a long-term public-key lookup returns: the same cached public
/// key, signed without any expiry semantics.
pub open spec fn long_term_key_result(
    m: KeyManager,
    id: (Seq<u8>, Seq<u8>),
    r: Option<SignedPublicKey>,
) -> bool {
    &&& ((r is Some) <==> find_key(m.entries(), id) != -1)
    &&& (r matches Some(spk) ==> spk.key@ == m.entries()[find_key(m.entries(), id)].1.0
        && spk.key@ == derived_pk(m.secret_view(), id) && spk.expiry is None && spk.signature@
        == sig_spec(m.secret_view(), spk.key@, None) && spk.wf())
}

/// Process-scoped key-manager instance: the secure-configuration flag,
/// the master-secret store, and the bounded key cache.
pub struct KeyManager {
    secure: bool,
    store: SecretStore,
    cache: KeyCache,
}

impl KeyManager {
    /// Whether authentication is enforced (hardware-trusted build).
    pub closed spec fn secure_mode(self) -> bool {
        self.secure
    }

    pub closed spec fn initialized(self) -> bool {
        self.store.initialized()
    }

    pub closed spec fn secret_view(self) -> Seq<u8> {
        self.store.secret_view()
    }

    pub closed spec fn checksum_view(self) -> Seq<u8> {
        self.store.checksum_view()
    }

    /// The cached entries, most recently used first.
    pub closed spec fn entries(self) -> Seq<CacheEntry> {
        self.cache.entries()
    }

    pub closed spec fn capacity(self) -> nat {
        self.cache.capacity()
    }

    /// How many derivations have been performed.
    pub closed spec fn derive_count(self) -> u64 {
        self.cache.count()
    }

    /// Internal consistency: the store and cache are well formed, nothing
    /// is cached before initialization, and every cached key is exactly
    /// the one derived from the held secret for its identity.
    pub closed spec fn wf(self) -> bool {
        &&& self.store.wf()
        &&& self.cache.wf()
        &&& (!self.store.initialized() ==> self.cache.entries().len() == 0)
        &&& (self.store.initialized() ==> self.cache.coherent(self.store.secret_view()))
    }

    /// A fresh, uninitialized manager with the given cache capacity.
    pub fn new(secure: bool, capacity: usize) -> (m: KeyManager)
        requires
            1 <= capacity,
        ensures
            m.wf(),
            !m.initialized(),
            m.secure_mode() == secure,
            m.capacity() == capacity as nat,
            m.entries() == Seq::<CacheEntry>::empty(),
            m.derive_count() == 0,
    {
        KeyManager { secure, store: SecretStore::new(), cache: KeyCache::new(capacity) }
    }

    pub fn is_secure(&self) -> (b: bool)
        ensures
            b == self.secure_mode(),
    {
        self.secure
    }

    pub fn derivations(&self) -> (n: u64)
        ensures
            n == self.derive_count(),
    {
        self.cache.derivations()
    }

    pub fn cached_len(&self) -> (n: usize)
        ensures
            n as nat == self.entries().len(),
    {
        self.cache.len()
    }

    /// Establishes the master secret on the first call and is idempotent
    /// afterwards: later calls return the same checksum, and a supplied
    /// expected checksum that disagrees fails with `IntegrityMismatch`
    /// without touching any state.
    pub fn init(&mut self, expected: Option<&Vec<u8>>) -> (r: Result<
        InitResponse,
        KeyManagerError,
    >)
        requires
            old(self).wf(),
        ensures
            final(self).wf(),
            final(self).secure_mode() == old(self).secure_mode(),
            final(self).capacity() == old(self).capacity(),
            final(self).entries() == old(self).entries(),
            final(self).derive_count() == old(self).derive_count(),
            final(self).initialized(),
            final(self).checksum_view() == checksum_spec(final(self).secret_view()),
            old(self).initialized() ==> final(self).secret_view() == old(self).secret_view()
                && final(self).checksum_view() == old(self).checksum_view(),
            (r is Err) <==> (old(self).initialized() && (expected matches Some(c) && c@ != old(self).checksum_view())),
            r matches Err(e) ==> e == KeyManagerError::IntegrityMismatch,
            r matches Ok(resp) ==> resp.checksum@ == final(self).checksum_view() && resp.is_secure
                == old(self).secure_mode(),
    {
        let res = self.store.init(expected);
        match res {
            Ok(checksum) => Ok(InitResponse { is_secure: self.secure, checksum }),
            Err(e) => Err(e),
        }
    }

    /// Returns the contract key for `id`, deriving and caching it on the
    /// first request. In secure configuration the call must carry a
    /// credential; before a successful `init` nothing is derived.
    pub fn get_or_create_keys(&mut self, id: &Identity, credential: Option<&Credential>) -> (r:
        Result<ContractKey, KeyManagerError>)
        requires
            old(self).wf(),
            id.wf(),
        ensures
            final(self).wf(),
            final(self).secure_mode() == old(self).secure_mode(),
            final(self).initialized() == old(self).initialized(),
            final(self).secret_view() == old(self).secret_view(),
            final(self).checksum_view() == old(self).checksum_view(),
            final(self).capacity() == old(self).capacity(),
            (old(self).secure_mode() && credential is None) ==> r == Err::<
                ContractKey,
                KeyManagerError,
            >(KeyManagerError::NotAuthenticated),
            (!(old(self).secure_mode() && credential is None) && !old(self).initialized()) ==> r
                == Err::<ContractKey, KeyManagerError>(KeyManagerError::NotInitialized),
            (r is Err) ==> final(self).entries() == old(self).entries() && final(self).derive_count() == old(self).derive_count(),
            (r is Ok) <==> (!(old(self).secure_mode() && credential is None) && old(self).initialized()),
            r matches Ok(k) ==> k@ == derived_key(old(self).secret_view(), id@) && k.wf() && final(self).entries().len() >= 1 && final(self).entries()[0].0 == id@ && final(self).entries()[0].1 == k@,
            (r is Ok && find_key(old(self).entries(), id@) != -1) ==> final(self).derive_count()
                == old(self).derive_count(),
            (r is Ok && find_key(old(self).entries(), id@) == -1) ==> final(self).derive_count()
                == inc_sat(old(self).derive_count()),
    {
        if self.secure && credential.is_none() {
            return Err(KeyManagerError::NotAuthenticated);
        }
        if !self.store.is_initialized() {
            return Err(KeyManagerError::NotInitialized);
        }
        let secret = self.store.secret();
        let (k, _evicted) = self.cache.get_or_insert(id, secret);
        Ok(k)
    }

    /// Looks up the cached key of `id` and signs its public half as a
    /// session key, carrying the maximal representable expiry. Read-only:
    /// never creates or reorders an entry.
    pub fn get_public_key(&self, id: &Identity) -> (r: Option<SignedPublicKey>)
        requires
            self.wf(),
            id.wf(),
        ensures
            session_key_result(*self, id@, r),
    {
        match self.cache.peek(id) {
            None => None,
            Some(k) => {
                proof {
                    lemma_cached_implies_initialized(*self, id@);
                    crate::cache::lemma_find_key(self.cache.entries(), id@);
                    let i = find_key(self.cache.entries(), id@);
                    assert(entry_coherent(self.cache.entries()[i], self.store.secret_view()));
                }
                let secret = self.store.secret();
                let pk = k.pk;
                Some(sign_with(secret, pk, Some(MAX_KEY_TIMESTAMP)))
            },
        }
    }

    /// Looks up the cached key of `id` and signs its public half as a
    /// long-term key, without any expiry semantics. Read-only.
    pub fn get_long_term_public_key(&self, id: &Identity) -> (r: Option<SignedPublicKey>)
        requires
            self.wf(),
            id.wf(),
        ensures
            long_term_key_result(*self, id@, r),
    {
        match self.cache.peek(id) {
            None => None,
            Some(k) => {
                proof {
                    lemma_cached_implies_initialized(*self, id@);
                    crate::cache::lemma_find_key(self.cache.entries(), id@);
                    let i = find_key(self.cache.entries(), id@);
                    assert(entry_coherent(self.cache.entries()[i], self.store.secret_view()));
                }
                let secret = self.store.secret();
                let pk = k.pk;
                Some(sign_with(secret, pk, None))
            },
        }
    }

    /// Signs arbitrary public-key bytes with the manager's signing
    /// credential. An expiry above `2^53 - 1` is rejected; before `init`
    /// there is no signing credential.
    pub fn sign_public_key(&self, key: Vec<u8>, expiry: Option<u64>) -> (r: Result<
        SignedPublicKey,
        KeyManagerError,
    >)
        requires
            self.wf(),
        ensures
            !expiry_in_range(expiry) ==> r == Err::<SignedPublicKey, KeyManagerError>(
                KeyManagerError::InvalidRequest,
            ),
            (expiry_in_range(expiry) && !self.initialized()) ==> r == Err::<
                SignedPublicKey,
                KeyManagerError,
            >(KeyManagerError::NotInitialized),
            (r is Ok) <==> (expiry_in_range(expiry) && self.initialized()),
            r matches Ok(spk) ==> spk.key@ == key@ && spk.expiry == expiry && spk.signature@
                == sig_spec(self.secret_view(), key@, expiry) && spk.wf(),
    {
        let in_range = match &expiry {
            Some(t) => *t <= MAX_KEY_TIMESTAMP,
            None => true,
        };
        if !in_range {
            return Err(KeyManagerError::InvalidRequest);
        }
        if !self.store.is_initialized() {
            return Err(KeyManagerError::NotInitialized);
        }
        let secret = self.store.secret();
        Ok(sign_with(secret, key, expiry))
    }
}

/// An identity with a cached key can only exist once the manager is
/// initialized: before that the cache is empty.
proof fn lemma_cached_implies_initialized(m: KeyManager, id: (Seq<u8>, Seq<u8>))
    requires
        m.wf(),
        find_key(m.entries(), id) != -1,
    ensures
        m.initialized(),
{
    crate::cache::lemma_find_key(m.entries(), id);
}

/// Law: session versus long-term distinction. For one manager state and
/// one identity, the session lookup and the long-term lookup either both
/// miss or both hit; on a hit they return the same underlying public key
/// bytes, the session key carrying the maximal expiry and the long-term
/// key carrying none.
pub proof fn lemma_session_vs_long_term(
    m: KeyManager,
    id: (Seq<u8>, Seq<u8>),
    s: Option<SignedPublicKey>,
    l: Option<SignedPublicKey>,
)
    requires
        session_key_result(m, id, s),
        long_term_key_result(m, id, l),
    ensures
        (s is Some) <==> (l is Some),
        (s is Some && l is Some) ==> s->Some_0.key@ == l->Some_0.key@ && s->Some_0.expiry == Some(
            MAX_KEY_TIMESTAMP,
        ) && l->Some_0.expiry is None,
{
}

} // verus!
