use keymanager_core::keys::Identity;
use keymanager_core::manager::{Credential, KeyManager};
use keymanager_core::KeyManagerError;
use keymanager_core::MAX_KEY_TIMESTAMP;

fn ident(a: u8, b: u8) -> Identity {
    Identity::new(vec![a; 32], vec![b; 32]).unwrap()
}

fn ready_manager(secure: bool) -> KeyManager {
    let mut m = KeyManager::new(secure, 8);
    m.init(None).unwrap();
    m
}

#[test]
fn init_is_idempotent_and_checksum_stable() {
    let mut m = KeyManager::new(false, 8);
    let r1 = m.init(None).unwrap();
    let r2 = m.init(None).unwrap();
    assert_eq!(r1.checksum, r2.checksum);
    assert_eq!(r1.checksum.len(), 32);
    assert!(!r1.is_secure);
}

#[test]
fn init_rejects_mismatched_checksum() {
    let mut m = KeyManager::new(false, 8);
    let r1 = m.init(None).unwrap();
    let wrong = vec![0u8; 32];
    if wrong != r1.checksum {
        assert_eq!(m.init(Some(&wrong)).unwrap_err(), KeyManagerError::IntegrityMismatch);
    }
    let r3 = m.init(Some(&r1.checksum)).unwrap();
    assert_eq!(r3.checksum, r1.checksum);
}

#[test]
fn distinct_managers_have_distinct_checksums() {
    let mut m1 = KeyManager::new(false, 8);
    let mut m2 = KeyManager::new(false, 8);
    assert_ne!(m1.init(None).unwrap().checksum, m2.init(None).unwrap().checksum);
}

#[test]
fn get_or_create_before_init_fails() {
    let mut m = KeyManager::new(false, 8);
    let id = ident(1, 2);
    assert_eq!(m.get_or_create_keys(&id, None).unwrap_err(), KeyManagerError::NotInitialized);
}

#[test]
fn secure_mode_requires_credential() {
    let mut m = ready_manager(true);
    let id = ident(1, 2);
    assert_eq!(m.get_or_create_keys(&id, None).unwrap_err(), KeyManagerError::NotAuthenticated);
    let cred = Credential;
    assert!(m.get_or_create_keys(&id, Some(&cred)).is_ok());
}

#[test]
fn insecure_mode_needs_no_credential() {
    let mut m = ready_manager(false);
    let id = ident(1, 2);
    assert!(m.get_or_create_keys(&id, None).is_ok());
}

#[test]
fn same_identity_same_key_once_derived() {
    let mut m = ready_manager(false);
    let id = ident(3, 4);
    let k1 = m.get_or_create_keys(&id, None).unwrap();
    let k2 = m.get_or_create_keys(&id, None).unwrap();
    assert_eq!(k1, k2);
    assert_eq!(m.derivations(), 1);
}

#[test]
fn rederivation_after_eviction_is_byte_identical() {
    let mut m = KeyManager::new(false, 1);
    m.init(None).unwrap();
    let a = ident(1, 1);
    let b = ident(2, 2);
    let ka1 = m.get_or_create_keys(&a, None).unwrap();
    m.get_or_create_keys(&b, None).unwrap();
    let ka2 = m.get_or_create_keys(&a, None).unwrap();
    assert_eq!(ka1, ka2);
    assert_eq!(m.derivations(), 3);
}

#[test]
fn distinct_identities_get_distinct_keys() {
    let mut m = ready_manager(false);
    let mut seen_sk: Vec<Vec<u8>> = Vec::new();
    let mut seen_pk: Vec<Vec<u8>> = Vec::new();
    for i in 0..12u8 {
        for j in 0..2u8 {
            let id = ident(i, j);
            let k = m.get_or_create_keys(&id, None).unwrap();
            assert!(!seen_sk.contains(&k.sk));
            assert!(!seen_pk.contains(&k.pk));
            assert_ne!(k.pk, k.sk);
            seen_sk.push(k.sk);
            seen_pk.push(k.pk);
        }
    }
}

#[test]
fn changing_one_id_half_changes_the_key() {
    let mut m = ready_manager(false);
    let k_ra = m.get_or_create_keys(&ident(9, 1), None).unwrap();
    let k_rb = m.get_or_create_keys(&ident(9, 2), None).unwrap();
    assert_ne!(k_ra, k_rb);
}

#[test]
fn public_key_read_does_not_create() {
    let mut m = ready_manager(false);
    let id = ident(5, 6);
    assert!(m.get_public_key(&id).is_none());
    assert!(m.get_long_term_public_key(&id).is_none());
    assert_eq!(m.derivations(), 0);
    assert_eq!(m.cached_len(), 0);
    m.get_or_create_keys(&id, None).unwrap();
    assert_eq!(m.derivations(), 1);
}

#[test]
fn session_and_long_term_keys_differ_only_in_expiry() {
    let mut m = ready_manager(false);
    let id = ident(7, 8);
    let k = m.get_or_create_keys(&id, None).unwrap();
    let s = m.get_public_key(&id).unwrap();
    let l = m.get_long_term_public_key(&id).unwrap();
    assert_eq!(s.expiry, Some(MAX_KEY_TIMESTAMP));
    assert_eq!(l.expiry, None);
    assert_eq!(s.key, l.key);
    assert_eq!(s.key, k.pk);
    assert_ne!(s.signature, l.signature);
    assert_eq!(s.signature.len(), 32);
    assert_eq!(l.signature.len(), 32);
}

#[test]
fn signature_is_not_the_key_bytes() {
    let mut m = ready_manager(false);
    let id = ident(7, 9);
    m.get_or_create_keys(&id, None).unwrap();
    let s = m.get_public_key(&id).unwrap();
    assert_ne!(s.signature, s.key);
}

#[test]
fn oversized_expiry_is_rejected() {
    let mut m = ready_manager(false);
    let id = ident(1, 3);
    let k = m.get_or_create_keys(&id, None).unwrap();
    let too_big = MAX_KEY_TIMESTAMP + 1;
    assert_eq!(
        m.sign_public_key(k.pk.clone(), Some(too_big)).unwrap_err(),
        KeyManagerError::InvalidRequest
    );
    let spk = m.sign_public_key(k.pk.clone(), Some(MAX_KEY_TIMESTAMP)).unwrap();
    assert_eq!(spk.expiry, Some(MAX_KEY_TIMESTAMP));
    assert_eq!(spk.key, k.pk);
}

#[test]
fn max_timestamp_is_the_largest_double_safe_integer() {
    assert_eq!(MAX_KEY_TIMESTAMP, 9007199254740991u64);
    assert_eq!(MAX_KEY_TIMESTAMP, (1u64 << 53) - 1);
}

#[test]
fn expiry_enters_the_signed_message() {
    let mut m = ready_manager(false);
    let id = ident(8, 8);
    let k = m.get_or_create_keys(&id, None).unwrap();
    let s1 = m.sign_public_key(k.pk.clone(), Some(1)).unwrap();
    let s2 = m.sign_public_key(k.pk.clone(), Some(2)).unwrap();
    let s3 = m.sign_public_key(k.pk.clone(), None).unwrap();
    assert_ne!(s1.signature, s2.signature);
    assert_ne!(s1.signature, s3.signature);
    let s1_again = m.sign_public_key(k.pk.clone(), Some(1)).unwrap();
    assert_eq!(s1.signature, s1_again.signature);
}

#[test]
fn signing_before_init_fails() {
    let m = KeyManager::new(false, 8);
    assert_eq!(
        m.sign_public_key(vec![1u8; 32], None).unwrap_err(),
        KeyManagerError::NotInitialized
    );
}

#[test]
fn malformed_identity_is_rejected() {
    assert_eq!(
        Identity::new(vec![1u8; 31], vec![2u8; 32]).unwrap_err(),
        KeyManagerError::InvalidRequest
    );
    assert_eq!(
        Identity::new(vec![1u8; 32], vec![2u8; 33]).unwrap_err(),
        KeyManagerError::InvalidRequest
    );
}

#[test]
fn end_to_end_scenario() {
    let mut m = KeyManager::new(false, 8);
    let c1 = m.init(None).unwrap().checksum;
    let c2 = m.init(None).unwrap().checksum;
    assert_eq!(c1, c2);
    let r = 11u8;
    let k = m.get_or_create_keys(&ident(r, 21), None).unwrap();
    let k_again = m.get_or_create_keys(&ident(r, 21), None).unwrap();
    assert_eq!(k, k_again);
    let k_other = m.get_or_create_keys(&ident(r, 22), None).unwrap();
    assert_ne!(k, k_other);
}
