//! Key-custody core of a confidential-computing key manager.
//!
//! The crate holds one master secret and deterministically derives
//! per-identity contract keys from it, caches them with bounded LRU
//! eviction and secure erasure of evicted private material, and signs
//! public keys for distribution with two trust lifetimes (session and
//! long-term).

use vstd::prelude::*;

pub mod bytes;
pub mod cache;
pub mod crypto;
pub mod kdf;
pub mod keys;
pub mod manager;
pub mod secret;
pub mod storage;

verus! {

/// Typed failures returned by the key-manager operations.
#[derive(Clone, Copy, Debug, PartialEq, Eq, Structural)]
pub enum KeyManagerError {
    /// An operation needing the master secret ran before a successful `init`.
    NotInitialized,
    /// `init` was given a checksum that disagrees with the held secret.
    IntegrityMismatch,
    /// A credential was required (secure configuration) but absent.
    NotAuthenticated,
    /// Malformed identity, or an out-of-range expiry request.
    InvalidRequest,
}

/// Largest expiry timestamp a signed public key may carry: `2^53 - 1`,
/// the largest integer that an IEEE-754 double represents exactly, so
/// every client parses it losslessly.
pub const MAX_KEY_TIMESTAMP: u64 = 9007199254740991;

} // verus!
