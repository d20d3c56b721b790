//! A thin, backend-generic blob-storage service shell: it owns a
//! pluggable backend and validates request keys. The transport that
//! surrounds it does the wire I/O; the value logic here is verified.

use vstd::prelude::*;

verus! {

/// Content-addressed storage service over a pluggable backend.
pub struct StorageService<T> {
    inner: T,
}

impl<T> StorageService<T> {
    /// The held backend.
    pub closed spec fn backend_view(self) -> T {
        self.inner
    }

    pub fn new(backend: T) -> (s: Self)
        ensures
            s.backend_view() == backend,
    {
        Self { inner: backend }
    }

    /// Shared access to the backend, for the transport shell to issue
    /// get and insert calls against.
    pub fn backend(&self) -> (b: &T)
        ensures
            *b == self.backend_view(),
    {
        &self.inner
    }
}

/// Parses a request id into a 256-bit storage key: accepted exactly when
/// it is 32 bytes long.
pub fn storage_key_from_bytes(id: &Vec<u8>) -> (r: Option<Vec<u8>>)
    ensures
        (r is Some) <==> id@.len() == 32,
        r matches Some(k) ==> k@ == id@,
{
    if id.len() == 32 {
        Some(crate::bytes::sub_bytes(id, 0, 32))
    } else {
        None
    }
}

} // verus!
