use base64::Engine;
use vault::crypto::{decrypt_with_key, encrypt_with_key};
use vault::error::VaultError;
use vault::keys::{hash_password, password_to_key};
use vault::secrets::{
    change_master_password, delete_secret, get_secret, initialize_vault, is_vault_initialized,
    list_secrets, migrate_store, save_secret, store_secret, update_secret, verify_master_password,
    verify_vault_password, EncryptedSecret, SecretStore,
};

const BANK: &str = r#"{"id":"s1","name":"Bank","type":"login","data":{"u":"a","p":"b"}}"#;

fn ready_store() -> SecretStore {
    let mut s = SecretStore::default();
    initialize_vault(&mut s, "longpass1").unwrap();
    s
}

fn b64() -> base64::engine::GeneralPurpose {
    base64::engine::general_purpose::STANDARD
}

fn flip_first_bit(text: &str) -> String {
    let mut bytes = b64().decode(text).unwrap();
    bytes[0] ^= 1;
    b64().encode(bytes)
}

fn same_record(a: &EncryptedSecret, b: &EncryptedSecret) -> bool {
    a.id == b.id
        && a.encrypted_data == b.encrypted_data
        && a.nonce == b.nonce
        && a.created_at == b.created_at
        && a.name == b.name
        && a.secret_type == b.secret_type
        && a.expires_at == b.expires_at
}

#[test]
fn hash_password_is_hex_sha256() {
    assert_eq!(
        hash_password("longpass1"),
        "b715fefab3342bab5965277f83bdbd766977ff2cfda1958b32f0931b956cea34"
    );
    assert_eq!(
        hash_password(""),
        "e3b0c44298fc1c149afbf4c8996fb92427ae41e4649b934ca495991b7852b855"
    );
}

#[test]
fn password_to_key_mixes_in_the_salt() {
    let expected: [u8; 32] = [
        57, 184, 224, 234, 223, 178, 244, 35, 147, 108, 245, 245, 156, 73, 189, 157, 198, 212,
        209, 139, 55, 27, 228, 181, 130, 132, 163, 243, 38, 135, 176, 95,
    ];
    assert_eq!(password_to_key("longpass1"), expected);
    assert_ne!(hex::encode(password_to_key("longpass1")), hash_password("longpass1"));
}

#[test]
fn cipher_round_trip_with_and_without_aad() {
    let key = password_to_key("longpass1");
    let (c, n) = encrypt_with_key(&key, b"hello", None).unwrap();
    assert_ne!(c, b64().encode(b"hello"));
    assert_eq!(b64().decode(&n).unwrap().len(), 24);
    assert_eq!(decrypt_with_key(&key, &c, &n, None).unwrap(), b"hello".to_vec());
    let (c2, n2) = encrypt_with_key(&key, b"hello", Some(b"ctx")).unwrap();
    assert_eq!(decrypt_with_key(&key, &c2, &n2, Some(b"ctx")).unwrap(), b"hello".to_vec());
    assert_eq!(decrypt_with_key(&key, &c2, &n2, Some(b"other")), Err(VaultError::CryptoFailure));
    let other = password_to_key("otherpass");
    assert_eq!(decrypt_with_key(&other, &c, &n, None), Err(VaultError::CryptoFailure));
}

#[test]
fn cipher_rejects_bad_encoding_and_short_nonce() {
    let key = password_to_key("longpass1");
    let (c, n) = encrypt_with_key(&key, b"hello", None).unwrap();
    assert_eq!(decrypt_with_key(&key, "!!not base64!!", &n, None), Err(VaultError::EncodingFailure));
    assert_eq!(decrypt_with_key(&key, &c, "%%%", None), Err(VaultError::EncodingFailure));
    let short = b64().encode([0u8; 12]);
    assert_eq!(decrypt_with_key(&key, &c, &short, None), Err(VaultError::CryptoFailure));
}

#[test]
fn scenario_initialize_then_reinitialize() {
    let mut s = SecretStore::default();
    assert!(!is_vault_initialized(&s));
    assert_eq!(initialize_vault(&mut s, "longpass1"), Ok(()));
    assert!(is_vault_initialized(&s));
    assert_eq!(s.version, 2);
    assert_eq!(initialize_vault(&mut s, "other"), Err(VaultError::AlreadyInitialized));
    assert!(verify_vault_password(&s, "longpass1"));
}

#[test]
fn weak_password_is_refused() {
    let mut s = SecretStore::default();
    assert_eq!(initialize_vault(&mut s, "short"), Err(VaultError::WeakPassword));
    assert!(!s.initialized);
    assert!(s.password_hash.is_empty());
}

#[test]
fn verification_before_initialization_fails_closed() {
    let s = SecretStore::default();
    assert!(!verify_vault_password(&s, "longpass1"));
    assert!(!verify_vault_password(&s, ""));
    assert_eq!(verify_master_password(&s, "longpass1"), Err(VaultError::Unauthorized));
}

#[test]
fn scenario_save_then_get() {
    let mut s = ready_store();
    assert_eq!(save_secret(&mut s, BANK, "longpass1"), Ok(()));
    assert_eq!(get_secret(&s, "s1", "longpass1").unwrap(), BANK);
    assert_eq!(get_secret(&s, "s1", "wrongpass"), Err(VaultError::Unauthorized));
    assert_ne!(s.secrets[0].encrypted_data, b64().encode(BANK));
}

#[test]
fn scenario_delete_then_get() {
    let mut s = ready_store();
    save_secret(&mut s, BANK, "longpass1").unwrap();
    assert_eq!(delete_secret(&mut s, "s1"), Ok(()));
    assert_eq!(get_secret(&s, "s1", "longpass1"), Err(VaultError::NotFound));
    assert_eq!(delete_secret(&mut s, "s1"), Err(VaultError::NotFound));
}

#[test]
fn scenario_resave_resets_created_at() {
    let mut s = ready_store();
    store_secret(&mut s, BANK, "longpass1", "2024-01-01T00:00:00+00:00".to_string()).unwrap();
    store_secret(&mut s, BANK, "longpass1", "2024-02-01T00:00:00+00:00".to_string()).unwrap();
    assert_eq!(s.secrets.len(), 1);
    assert_eq!(s.secrets[0].created_at, "2024-02-01T00:00:00+00:00");

    let mut t = ready_store();
    save_secret(&mut t, BANK, "longpass1").unwrap();
    let first = t.secrets[0].created_at.clone();
    save_secret(&mut t, BANK, "longpass1").unwrap();
    assert_eq!(t.secrets.len(), 1);
    assert_ne!(t.secrets[0].created_at, first);
}

#[test]
fn successive_puts_use_fresh_nonces() {
    let mut s = ready_store();
    save_secret(&mut s, BANK, "longpass1").unwrap();
    let first = s.secrets[0].nonce.clone();
    update_secret(&mut s, BANK, "longpass1").unwrap();
    assert_ne!(s.secrets[0].nonce, first);
}

#[test]
fn tampering_is_detected() {
    let mut s = ready_store();
    save_secret(&mut s, BANK, "longpass1").unwrap();
    let data = s.secrets[0].encrypted_data.clone();
    s.secrets[0].encrypted_data = flip_first_bit(&data);
    assert_eq!(get_secret(&s, "s1", "longpass1"), Err(VaultError::CryptoFailure));
    s.secrets[0].encrypted_data = data;
    let nonce = s.secrets[0].nonce.clone();
    s.secrets[0].nonce = flip_first_bit(&nonce);
    assert_eq!(get_secret(&s, "s1", "longpass1"), Err(VaultError::CryptoFailure));
}

#[test]
fn wrong_password_is_refused_everywhere() {
    let mut s = ready_store();
    for i in 0..5 {
        let payload = format!(r#"{{"id":"k{}"}}"#, i);
        save_secret(&mut s, &payload, "longpass1").unwrap();
    }
    assert_eq!(save_secret(&mut s, BANK, "wrongpass"), Err(VaultError::Unauthorized));
    assert_eq!(get_secret(&s, "k1", "wrongpass"), Err(VaultError::Unauthorized));
    assert_eq!(
        change_master_password(&mut s, "wrongpass", "newpass12"),
        Err(VaultError::Unauthorized)
    );
    assert_eq!(s.secrets.len(), 5);
    assert_eq!(save_secret(&mut SecretStore::default(), BANK, "longpass1"), Err(VaultError::Unauthorized));
}

#[test]
fn listing_needs_no_password_and_uses_defaults() {
    let mut s = ready_store();
    save_secret(&mut s, BANK, "longpass1").unwrap();
    save_secret(&mut s, r#"{"id":"s2","metadata":{"expires_at":"2030-01-01"}}"#, "longpass1").unwrap();
    let before = list_secrets(&s);
    assert_eq!(save_secret(&mut s, BANK, "wrongpass"), Err(VaultError::Unauthorized));
    let after = list_secrets(&s);
    assert_eq!(before.len(), 2);
    assert_eq!(after.len(), 2);
    assert_eq!(after[0].id, "s1");
    assert_eq!(after[0].name, "Bank");
    assert_eq!(after[0].secret_type, "login");
    assert_eq!(after[0].expires_at, None);
    assert_eq!(after[1].id, "s2");
    assert_eq!(after[1].name, "Untitled");
    assert_eq!(after[1].secret_type, "generic");
    assert_eq!(after[1].expires_at, Some("2030-01-01".to_string()));
    for (a, b) in before.iter().zip(after.iter()) {
        assert_eq!(a.id, b.id);
        assert_eq!(a.created_at, b.created_at);
    }
}

#[test]
fn payload_without_id_is_malformed() {
    let mut s = ready_store();
    assert_eq!(save_secret(&mut s, r#"{"name":"x"}"#, "longpass1"), Err(VaultError::MalformedSecret));
    assert_eq!(save_secret(&mut s, r#"{"id":""}"#, "longpass1"), Err(VaultError::MalformedSecret));
    assert_eq!(save_secret(&mut s, r#"{"id":7}"#, "longpass1"), Err(VaultError::MalformedSecret));
    assert_eq!(save_secret(&mut s, "not json", "longpass1"), Err(VaultError::MalformedSecret));
    assert!(s.secrets.is_empty());
}

#[test]
fn rotation_reseals_every_record() {
    let mut s = ready_store();
    save_secret(&mut s, BANK, "longpass1").unwrap();
    save_secret(&mut s, r#"{"id":"s2","data":"x"}"#, "longpass1").unwrap();
    let old_nonce = s.secrets[0].nonce.clone();
    assert_eq!(change_master_password(&mut s, "longpass1", "short"), Err(VaultError::WeakPassword));
    assert_eq!(change_master_password(&mut s, "longpass1", "newpass12"), Ok(()));
    assert_ne!(s.secrets[0].nonce, old_nonce);
    assert_eq!(s.password_hash, hash_password("newpass12"));
    assert_eq!(get_secret(&s, "s1", "newpass12").unwrap(), BANK);
    assert_eq!(get_secret(&s, "s2", "newpass12").unwrap(), r#"{"id":"s2","data":"x"}"#);
    assert_eq!(get_secret(&s, "s1", "longpass1"), Err(VaultError::Unauthorized));
}

#[test]
fn failed_rotation_changes_nothing() {
    let mut s = ready_store();
    save_secret(&mut s, BANK, "longpass1").unwrap();
    save_secret(&mut s, r#"{"id":"s2"}"#, "longpass1").unwrap();
    let data = s.secrets[1].encrypted_data.clone();
    s.secrets[1].encrypted_data = flip_first_bit(&data);
    let before: Vec<EncryptedSecret> = s.secrets.clone();
    let hash = s.password_hash.clone();
    assert_eq!(
        change_master_password(&mut s, "longpass1", "newpass12"),
        Err(VaultError::CryptoFailure)
    );
    assert_eq!(s.password_hash, hash);
    assert_eq!(s.secrets.len(), before.len());
    for (a, b) in s.secrets.iter().zip(before.iter()) {
        assert!(same_record(a, b));
    }
    assert!(verify_vault_password(&s, "longpass1"));
}

#[test]
fn migration_prefers_current_schema() {
    let current = ready_store();
    let migrated = migrate_store(Some(current), None).unwrap();
    assert!(migrated.initialized);

    let mut old = ready_store();
    save_secret(&mut old, BANK, "longpass1").unwrap();
    let records = old.secrets.clone();
    let m = migrate_store(None, Some(records)).unwrap();
    assert!(!m.initialized);
    assert_eq!(m.version, 2);
    assert!(m.password_hash.is_empty());
    assert_eq!(m.secrets.len(), 1);
    assert_eq!(m.secrets[0].id, "s1");
    assert!(!verify_vault_password(&m, "longpass1"));

    assert_eq!(migrate_store(None, None).err(), Some(VaultError::CorruptStore));
}
