use vault::error::VaultError;
use vault::legacy::{
    decrypt_item, decrypt_master, delete_item, encrypt_item, encrypt_master, get_master_bytes,
    list_items, CredentialItem, Store,
};
use vault::tray::get_vault_status;

#[test]
fn master_key_round_trip() {
    let master = [7u8; 32];
    let enc = encrypt_master(&master, "longpass1").unwrap();
    assert_eq!(decrypt_master(&enc, "longpass1").unwrap(), master);
    assert_eq!(decrypt_master(&enc, "wrongpass"), Err(VaultError::CryptoFailure));
    let st = Store { version: 1, items: vec![], master_enc: Some(enc) };
    assert_eq!(get_master_bytes(&st, "longpass1").unwrap(), master);
}

#[test]
fn missing_master_key_is_not_found() {
    let st = Store { version: 1, items: vec![], master_enc: None };
    assert_eq!(get_master_bytes(&st, "longpass1"), Err(VaultError::NotFound));
}

#[test]
fn legacy_listing_gives_ids_and_times() {
    let item = CredentialItem {
        id: "a".to_string(),
        created_at: "t0".to_string(),
        nonce: String::new(),
        name: String::new(),
        login: String::new(),
        password: String::new(),
        host: String::new(),
    };
    let st = Store { version: 1, items: vec![item], master_enc: None };
    assert_eq!(list_items(&st), vec![("a".to_string(), "t0".to_string())]);
}

#[test]
fn tray_status_is_ready() {
    assert_eq!(get_vault_status(), "Ready");
}

fn legacy_store_with_master(master: [u8; 32]) -> Store {
    let enc = encrypt_master(&master, "longpass1").unwrap();
    Store { version: 1, items: vec![], master_enc: Some(enc) }
}

#[test]
fn legacy_items_are_replaced_listed_and_deleted() {
    let mut st = legacy_store_with_master([3u8; 32]);
    let t = |s: &str| s.to_string();
    encrypt_item(&mut st, t("a"), t("n"), t("l"), t("p"), t("h"), "longpass1", t("t1")).unwrap();
    encrypt_item(&mut st, t("b"), t("n"), t("l"), t("p"), t("h"), "longpass1", t("t2")).unwrap();
    encrypt_item(&mut st, t("a"), t("n2"), t("l"), t("p"), t("h"), "longpass1", t("t3")).unwrap();
    assert_eq!(list_items(&st), vec![(t("b"), t("t2")), (t("a"), t("t3"))]);
    assert_ne!(st.items[1].name, "n2");
    assert_eq!(delete_item(&mut st, "b"), Ok(()));
    assert_eq!(list_items(&st), vec![(t("a"), t("t3"))]);
    assert_eq!(delete_item(&mut st, "zzz"), Ok(()));
    assert_eq!(st.items.len(), 1);
}

#[test]
fn legacy_item_errors() {
    let mut st = legacy_store_with_master([3u8; 32]);
    let t = |s: &str| s.to_string();
    assert_eq!(decrypt_item(&st, "a", "longpass1"), Err(VaultError::NotFound));
    encrypt_item(&mut st, t("a"), t("n"), t("l"), t("p"), t("h"), "longpass1", t("t1")).unwrap();
    // Only the name's nonce is kept, so the other fields do not open with it.
    assert_eq!(decrypt_item(&st, "a", "longpass1"), Err(VaultError::CryptoFailure));
    assert_eq!(decrypt_item(&st, "a", "wrongpass"), Err(VaultError::CryptoFailure));
    let mut bare = Store { version: 1, items: vec![], master_enc: None };
    assert_eq!(
        encrypt_item(&mut bare, t("a"), t("n"), t("l"), t("p"), t("h"), "longpass1", t("t1")),
        Err(VaultError::NotFound)
    );
}
