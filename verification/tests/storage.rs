use keymanager_core::storage::{storage_key_from_bytes, StorageService};

#[test]
fn new_holds_the_given_backend() {
    let service = StorageService::new(7u64);
    assert_eq!(*service.backend(), 7u64);
}

#[test]
fn storage_keys_must_be_32_bytes() {
    let good = vec![9u8; 32];
    assert_eq!(storage_key_from_bytes(&good).unwrap(), good);
    assert!(storage_key_from_bytes(&vec![9u8; 31]).is_none());
    assert!(storage_key_from_bytes(&vec![9u8; 33]).is_none());
    assert!(storage_key_from_bytes(&Vec::new()).is_none());
}
