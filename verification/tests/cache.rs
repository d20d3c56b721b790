use keymanager_core::cache::KeyCache;
use keymanager_core::keys::Identity;
use keymanager_core::secret::MasterSecret;

fn ident2(a: u8, b: u8) -> Identity {
    Identity::new(vec![a; 32], vec![b; 32]).unwrap()
}

fn secret() -> MasterSecret {
    MasterSecret::from_bytes(vec![42u8; 32]).unwrap()
}

#[test]
fn secret_must_be_32_bytes() {
    assert!(MasterSecret::from_bytes(vec![42u8; 31]).is_err());
    assert!(MasterSecret::from_bytes(vec![42u8; 32]).is_ok());
}

#[test]
fn shared_secret_derives_identical_keys_across_caches() {
    let s = secret();
    let mut c1 = KeyCache::new(4);
    let mut c2 = KeyCache::new(4);
    let id = ident2(1, 2);
    let (k1, _) = c1.get_or_insert(&id, &s);
    let (k2, _) = c2.get_or_insert(&id, &s);
    assert_eq!(k1, k2);
}

#[test]
fn hit_derives_nothing_and_returns_cached_key() {
    let s = secret();
    let mut c = KeyCache::new(4);
    let id = ident2(1, 2);
    let (k1, ev1) = c.get_or_insert(&id, &s);
    assert!(ev1.is_none());
    assert_eq!(c.derivations(), 1);
    let (k2, ev2) = c.get_or_insert(&id, &s);
    assert!(ev2.is_none());
    assert_eq!(c.derivations(), 1);
    assert_eq!(k1, k2);
    assert_eq!(c.len(), 1);
}

#[test]
fn eviction_erases_private_fields_of_lru_entry() {
    let s = secret();
    let mut c = KeyCache::new(2);
    let a = ident2(1, 1);
    let b = ident2(2, 2);
    let d = ident2(3, 3);
    let (ka, _) = c.get_or_insert(&a, &s);
    c.get_or_insert(&b, &s);
    let (_, evicted) = c.get_or_insert(&d, &s);
    let (eid, husk) = evicted.expect("capacity exceeded, so an entry must leave");
    assert_eq!(eid, a);
    assert_eq!(husk.sk, vec![0u8; 32]);
    assert_eq!(husk.state_key, vec![0u8; 32]);
    assert_eq!(husk.pk, ka.pk);
    assert_eq!(c.len(), 2);
    assert!(c.peek(&a).is_none());
    assert!(c.peek(&b).is_some());
    assert!(c.peek(&d).is_some());
}

#[test]
fn recently_used_entry_survives_eviction() {
    let s = secret();
    let mut c = KeyCache::new(2);
    let a = ident2(1, 1);
    let b = ident2(2, 2);
    let d = ident2(3, 3);
    c.get_or_insert(&a, &s);
    c.get_or_insert(&b, &s);
    c.get_or_insert(&a, &s);
    let (_, evicted) = c.get_or_insert(&d, &s);
    let (eid, _) = evicted.unwrap();
    assert_eq!(eid, b);
    assert!(c.peek(&a).is_some());
    assert!(c.peek(&b).is_none());
}

#[test]
fn peek_never_creates_or_promotes() {
    let s = secret();
    let mut c = KeyCache::new(2);
    let a = ident2(1, 1);
    let b = ident2(2, 2);
    let d = ident2(3, 3);
    assert!(c.peek(&a).is_none());
    assert_eq!(c.derivations(), 0);
    let (ka, _) = c.get_or_insert(&a, &s);
    c.get_or_insert(&b, &s);
    assert_eq!(c.peek(&a).unwrap(), ka);
    let (_, evicted) = c.get_or_insert(&d, &s);
    let (eid, _) = evicted.unwrap();
    assert_eq!(eid, a);
}

#[test]
fn derived_key_parts_are_32_bytes_and_distinct() {
    let s = secret();
    let mut c = KeyCache::new(2);
    let (k, _) = c.get_or_insert(&ident2(9, 9), &s);
    assert_eq!(k.pk.len(), 32);
    assert_eq!(k.sk.len(), 32);
    assert_eq!(k.state_key.len(), 32);
    assert_ne!(k.pk, k.sk);
    assert_ne!(k.sk, k.state_key);
}

#[test]
fn clamping_shapes_the_private_scalar() {
    let s = secret();
    let mut c = KeyCache::new(2);
    let (k, _) = c.get_or_insert(&ident2(4, 7), &s);
    assert_eq!(k.sk[0] & 7, 0);
    assert_eq!(k.sk[31] & 128, 0);
    assert_eq!(k.sk[31] & 64, 64);
}
