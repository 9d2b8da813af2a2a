//! The vault document and the operations on it: initialization, password
//! verification and rotation, and storing, reading, listing and deleting
//! secrets. Each operation works on a document held in memory; reading and
//! writing the file is left to the caller.
use vstd::prelude::*;
use vstd::utf8::{decode_utf8, encode_utf8, valid_utf8};
use crate::crypto::{decrypt_with_key, decryption, encrypt_with_key, seals};
use crate::error::VaultError;
use crate::keys::{derived_key, hash_password, password_to_key, verification_hash};
use crate::primitives::{
    AEAD_MSG_LIMIT, json_member_str, json_member_text, member_str, member_text, now_rfc3339,
    utf8_string,
};

verus! {

/// The schema version of the document that this library writes.
pub const STORE_VERSION: u32 = 2;

/// The least number of bytes in a master password.
pub const MIN_PASSWORD_LEN: usize = 8;

/// A secret as it is stored: the sealed payload and a cleartext copy of the
/// fields that a listing shows.
#[derive(Clone, Debug)]
pub struct EncryptedSecret {
    pub id: String,
    /// Base64 ciphertext of the whole payload.
    pub encrypted_data: String,
    /// Base64 of the nonce the payload was sealed with.
    pub nonce: String,
    pub created_at: String,
    pub name: String,
    pub secret_type: String,
    pub expires_at: Option<String>,
}

/// What a listing shows of a secret, without its sensitive content.
#[derive(Clone, Debug)]
pub struct SecretListItem {
    pub id: String,
    pub name: String,
    pub secret_type: String,
    pub created_at: String,
    pub expires_at: Option<String>,
}

/// The vault document.
#[derive(Debug)]
pub struct SecretStore {
    pub version: u32,
    pub initialized: bool,
    /// The verification hash of the master password; empty before
    /// initialization.
    pub password_hash: String,
    pub secrets: Vec<EncryptedSecret>,
}

/// No two records share an id.
pub open spec fn ids_unique(secrets: Seq<EncryptedSecret>) -> bool {
    forall|i: int, j: int|
        0 <= i < secrets.len() && 0 <= j < secrets.len() && i != j ==> #[trigger] secrets[i].id@
            != #[trigger] secrets[j].id@
}

impl SecretStore {
    /// The document's invariant: at most one record per id, and an
    /// initialized store holds a password hash.
    pub open spec fn well_formed(&self) -> bool {
        ids_unique(self.secrets@) && (self.initialized ==> self.password_hash@.len() > 0)
    }
}

/// Dropping records keeps ids unique.
pub proof fn lemma_filter_keeps_ids_unique(s: Seq<EncryptedSecret>, pred: spec_fn(EncryptedSecret) -> bool)
    requires
        ids_unique(s),
    ensures
        ids_unique(s.filter(pred)),
    decreases s.len(),
{
    reveal(Seq::filter);
    if s.len() > 0 {
        let d = s.drop_last();
        assert(ids_unique(d)) by {
            assert forall|i: int, j: int|
                0 <= i < d.len() && 0 <= j < d.len() && i != j implies #[trigger] d[i].id@
                    != #[trigger] d[j].id@ by {
                assert(d[i] == s[i] && d[j] == s[j]);
            }
        }
        lemma_filter_keeps_ids_unique(d, pred);
        let f = d.filter(pred);
        if pred(s.last()) {
            assert forall|k: int| 0 <= k < f.len() implies f[k].id@ != s.last().id@ by {
                assert(f.contains(f[k]));
                d.lemma_filter_contains_rev(pred, f[k]);
                let m = choose|m: int| 0 <= m < d.len() && d[m] == f[k];
                assert(s[m] == d[m]);
            }
            let g = f.push(s.last());
            assert forall|i: int, j: int|
                0 <= i < g.len() && 0 <= j < g.len() && i != j implies #[trigger] g[i].id@
                    != #[trigger] g[j].id@ by {
                if i < f.len() && j < f.len() {
                    assert(g[i] == f[i] && g[j] == f[j]);
                } else if i < f.len() {
                    assert(g[i] == f[i]);
                } else if j < f.len() {
                    assert(g[j] == f[j]);
                }
            }
        }
    }
}

/// The text that an optional string holds.
pub open spec fn opt_view(o: Option<String>) -> Option<Seq<char>> {
    match o {
        Some(s) => Some(s@),
        None => None,
    }
}

/// The number of bytes in the UTF-8 form of a text.
pub open spec fn byte_len(s: Seq<char>) -> int {
    encode_utf8(s).len() as int
}

/// A password is accepted by a store: the store is initialized and holds the
/// password's verification hash.
pub open spec fn password_ok(store: SecretStore, password: Seq<char>) -> bool {
    store.initialized && verification_hash(password) == store.password_hash@
}

/// `i` is the first position of a record with the given id.
pub open spec fn is_first_with_id(secrets: Seq<EncryptedSecret>, id: Seq<char>, i: int) -> bool {
    0 <= i < secrets.len() && secrets[i].id@ == id && forall|j: int|
        0 <= j < i ==> secrets[j].id@ != id
}

/// The first position of a record with the given id, if any.
pub open spec fn first_with_id(secrets: Seq<EncryptedSecret>, id: Seq<char>) -> Option<int> {
    if exists|i: int| is_first_with_id(secrets, id, i) {
        Some(choose|i: int| is_first_with_id(secrets, id, i))
    } else {
        None
    }
}

/// Some record has the given id.
pub open spec fn has_id(secrets: Seq<EncryptedSecret>, id: Seq<char>) -> bool {
    exists|i: int| 0 <= i < secrets.len() && secrets[i].id@ == id
}

/// Whether a record's id differs from `id`.
pub open spec fn id_differs(id: Seq<char>) -> spec_fn(EncryptedSecret) -> bool {
    |e: EncryptedSecret| e.id@ != id
}

/// The records whose id differs from `id`, in order.
pub open spec fn without_id(secrets: Seq<EncryptedSecret>, id: Seq<char>) -> Seq<EncryptedSecret> {
    secrets.filter(id_differs(id))
}

/// The listing entry of a stored record.
pub open spec fn listing_of(e: EncryptedSecret) -> SecretListItem {
    SecretListItem {
        id: e.id,
        name: e.name,
        secret_type: e.secret_type,
        created_at: e.created_at,
        expires_at: e.expires_at,
    }
}

/// The store after initialization with a password.
pub open spec fn initialized_with(old: SecretStore, new: SecretStore, password: Seq<char>) -> bool {
    new.initialized && new.password_hash@ == verification_hash(password) && new.version
        == STORE_VERSION && new.secrets@ == old.secrets@
}

impl Default for SecretStore {
    /// An empty, uninitialized document of the current version.
    fn default() -> (r: SecretStore)
        ensures
            r.version == STORE_VERSION,
            !r.initialized,
            r.password_hash@.len() == 0,
            r.secrets@.len() == 0,
    {
        SecretStore { version: STORE_VERSION, initialized: false, password_hash: String::new(), secrets: Vec::new() }
    }
}

/// An exact copy of an optional string.
fn copy_opt(o: &Option<String>) -> (r: Option<String>)
    ensures
        r == *o,
{
    match o {
        Some(s) => Some(s.clone()),
        None => None,
    }
}

/// An exact copy of a stored record.
fn copy_record(e: &EncryptedSecret) -> (r: EncryptedSecret)
    ensures
        r == *e,
{
    EncryptedSecret {
        id: e.id.clone(),
        encrypted_data: e.encrypted_data.clone(),
        nonce: e.nonce.clone(),
        created_at: e.created_at.clone(),
        name: e.name.clone(),
        secret_type: e.secret_type.clone(),
        expires_at: copy_opt(&e.expires_at),
    }
}

/// The position of the first record with the given id.
fn find_first(secrets: &Vec<EncryptedSecret>, id: &String) -> (r: Option<usize>)
    ensures
        r matches Some(i) ==> is_first_with_id(secrets@, id@, i as int),
        r is None <==> !has_id(secrets@, id@),
        r matches Some(i) ==> first_with_id(secrets@, id@) == Some(i as int),
        r is None ==> first_with_id(secrets@, id@) is None,
{
    let mut i: usize = 0;
    while i < secrets.len()
        invariant
            0 <= i <= secrets@.len(),
            forall|j: int| 0 <= j < i ==> secrets@[j].id@ != id@,
        decreases secrets@.len() - i,
    {
        if secrets[i].id == *id {
            proof {
                assert(is_first_with_id(secrets@, id@, i as int));
                let k = choose|k: int| is_first_with_id(secrets@, id@, k);
                assert(k == i as int) by {
                    if k < i as int {
                    } else if k > i as int {
                        assert(!is_first_with_id(secrets@, id@, k));
                    }
                }
            }
            return Some(i);
        }
        i = i + 1;
    }
    None
}

/// The records whose id differs from `id`, in order.
fn records_without(secrets: &Vec<EncryptedSecret>, id: &String) -> (r: Vec<EncryptedSecret>)
    ensures
        r@ == without_id(secrets@, id@),
{
    let ghost pred = id_differs(id@);
    let mut out: Vec<EncryptedSecret> = Vec::new();
    let mut i: usize = 0;
    proof {
        reveal(Seq::filter);
        assert(secrets@.subrange(0, 0) =~= Seq::<EncryptedSecret>::empty());
    }
    while i < secrets.len()
        invariant
            0 <= i <= secrets@.len(),
            pred == id_differs(id@),
            out@ == secrets@.subrange(0, i as int).filter(pred),
        decreases secrets@.len() - i,
    {
        proof {
            assert(secrets@.subrange(0, i as int + 1).drop_last() =~= secrets@.subrange(0, i as int));
        }
        let keep = secrets[i].id != *id;
        if keep {
            out.push(copy_record(&secrets[i]));
        }
        proof {
            let s = secrets@.subrange(0, i as int + 1);
            assert(s.last() == secrets@[i as int]);
            assert(pred(secrets@[i as int]) == keep);
            reveal(Seq::filter);
            assert(s.filter(pred) == if pred(s.last()) {
                s.drop_last().filter(pred).push(s.last())
            } else {
                s.drop_last().filter(pred)
            });
        }
        i = i + 1;
    }
    proof {
        assert(secrets@.subrange(0, secrets@.len() as int) =~= secrets@);
    }
    out
}

/// Checks a password against a store: `Unauthorized` where the store is not
/// initialized or holds another password's hash.
pub fn verify_master_password(store: &SecretStore, password: &str) -> (r: Result<(), VaultError>)
    ensures
        r is Ok <==> password_ok(*store, password@),
        r matches Err(e) ==> e == VaultError::Unauthorized,
{
    if !store.initialized {
        return Err(VaultError::Unauthorized);
    }
    let provided = hash_password(password);
    if provided != store.password_hash {
        return Err(VaultError::Unauthorized);
    }
    Ok(())
}

/// Whether the store has a master password.
pub fn is_vault_initialized(store: &SecretStore) -> (r: bool)
    ensures
        r == store.initialized,
{
    store.initialized
}

/// Sets the first master password. An initialized store is refused first,
/// then a password under eight bytes.
pub fn initialize_vault(store: &mut SecretStore, master_password: &str) -> (r: Result<(), VaultError>)
    ensures
        old(store).initialized ==> r == Err::<(), VaultError>(VaultError::AlreadyInitialized),
        !old(store).initialized && byte_len(master_password@) < MIN_PASSWORD_LEN ==> r
            == Err::<(), VaultError>(VaultError::WeakPassword),
        !old(store).initialized && byte_len(master_password@) >= MIN_PASSWORD_LEN ==> r is Ok,
        r is Ok ==> initialized_with(*old(store), *final(store), master_password@),
        r is Err ==> *final(store) == *old(store),
        old(store).well_formed() ==> final(store).well_formed(),
{
    if store.initialized {
        return Err(VaultError::AlreadyInitialized);
    }
    if master_password.as_bytes().len() < MIN_PASSWORD_LEN {
        return Err(VaultError::WeakPassword);
    }
    store.initialized = true;
    store.password_hash = hash_password(master_password);
    store.version = STORE_VERSION;
    Ok(())
}

/// Whether a password is the store's master password; false before
/// initialization.
pub fn verify_vault_password(store: &SecretStore, master_password: &str) -> (r: bool)
    ensures
        r == password_ok(*store, master_password@),
{
    match verify_master_password(store, master_password) {
        Ok(_) => true,
        Err(_) => false,
    }
}

/// The listing of every record, in store order; no password is involved.
pub fn list_secrets(store: &SecretStore) -> (r: Vec<SecretListItem>)
    ensures
        r@ == store.secrets@.map_values(|e: EncryptedSecret| listing_of(e)),
{
    let mut out: Vec<SecretListItem> = Vec::new();
    let mut i: usize = 0;
    while i < store.secrets.len()
        invariant
            0 <= i <= store.secrets@.len(),
            out@ == store.secrets@.subrange(0, i as int).map_values(|e: EncryptedSecret| listing_of(e)),
        decreases store.secrets@.len() - i,
    {
        let e = &store.secrets[i];
        let item = SecretListItem {
            id: e.id.clone(),
            name: e.name.clone(),
            secret_type: e.secret_type.clone(),
            created_at: e.created_at.clone(),
            expires_at: copy_opt(&e.expires_at),
        };
        out.push(item);
        proof {
            assert(store.secrets@.subrange(0, i as int + 1).map_values(|e: EncryptedSecret| listing_of(e))
                =~= store.secrets@.subrange(0, i as int).map_values(|e: EncryptedSecret| listing_of(e)).push(listing_of(store.secrets@[i as int])));
        }
        i = i + 1;
    }
    proof {
        assert(store.secrets@.subrange(0, store.secrets@.len() as int) =~= store.secrets@);
    }
    out
}

/// Removes every record with the given id; `NotFound` where there is none.
/// No password is involved.
pub fn delete_secret(store: &mut SecretStore, id: &str) -> (r: Result<(), VaultError>)
    ensures
        r is Ok <==> has_id(old(store).secrets@, id@),
        r matches Err(e) ==> e == VaultError::NotFound,
        r is Ok ==> final(store).secrets@ == without_id(old(store).secrets@, id@),
        final(store).version == old(store).version,
        final(store).initialized == old(store).initialized,
        final(store).password_hash == old(store).password_hash,
        r is Err ==> *final(store) == *old(store),
        old(store).well_formed() ==> final(store).well_formed(),
{
    let key: String = id.to_owned();
    match find_first(&store.secrets, &key) {
        None => Err(VaultError::NotFound),
        Some(_) => {
            store.secrets = records_without(&store.secrets, &key);
            proof {
                if old(store).well_formed() {
                    lemma_filter_keeps_ids_unique(old(store).secrets@, id_differs(id@));
                }
            }
            Ok(())
        },
    }
}

/// The id that a payload names, if it names one as a string.
pub open spec fn payload_id(payload: Seq<char>) -> Option<Seq<char>> {
    json_member_str(payload, "id"@)
}

/// A payload names a non-empty string id.
pub open spec fn payload_id_ok(payload: Seq<char>) -> bool {
    payload_id(payload) matches Some(id) && id.len() > 0
}

/// The listing name of a payload: its `name`, or "Untitled".
pub open spec fn listing_name(payload: Seq<char>) -> Seq<char> {
    match json_member_str(payload, "name"@) {
        Some(n) => n,
        None => "Untitled"@,
    }
}

/// The listing category of a payload: its `type`, or "generic".
pub open spec fn listing_type(payload: Seq<char>) -> Seq<char> {
    match json_member_str(payload, "type"@) {
        Some(t) => t,
        None => "generic"@,
    }
}

/// The expiry of a payload: the string `expires_at` inside its `metadata`.
pub open spec fn listing_expiry(payload: Seq<char>) -> Option<Seq<char>> {
    match json_member_text(payload, "metadata"@) {
        Some(m) => json_member_str(m, "expires_at"@),
        None => None,
    }
}

/// `e` is the stored form of `payload` under the key of `password`: its
/// listing fields come from the payload and it seals the payload's bytes.
pub open spec fn record_of(e: EncryptedSecret, payload: Seq<char>, password: Seq<char>) -> bool {
    payload_id(payload) == Some(e.id@) && e.name@ == listing_name(payload) && e.secret_type@
        == listing_type(payload) && opt_view(e.expires_at) == listing_expiry(payload) && seals(
        derived_key(password),
        encode_utf8(payload),
        seq![],
        e.encrypted_data@,
        e.nonce@,
    )
}

/// `new` is `old` after storing `payload` under `password`: every record with
/// the payload's id is dropped and the new record goes last.
pub open spec fn put_outcome(old: SecretStore, new: SecretStore, payload: Seq<char>, password: Seq<char>) -> bool {
    &&& password_ok(old, password)
    &&& new.version == old.version
    &&& new.initialized == old.initialized
    &&& new.password_hash == old.password_hash
    &&& new.secrets@.len() > 0
    &&& payload_id(payload) matches Some(id) && new.secrets@.drop_last() == without_id(old.secrets@, id)
    &&& record_of(new.secrets@.last(), payload, password)
}

/// Storing a secret keeps the document's invariant.
pub proof fn lemma_put_keeps_well_formed(old: SecretStore, new: SecretStore, payload: Seq<char>, password: Seq<char>)
    requires
        old.well_formed(),
        put_outcome(old, new, payload, password),
    ensures
        new.well_formed(),
{
    let id = payload_id(payload).unwrap();
    let n = new.secrets@;
    let f = n.drop_last();
    lemma_filter_keeps_ids_unique(old.secrets@, id_differs(id));
    assert forall|k: int| 0 <= k < f.len() implies f[k].id@ != id by {
        old.secrets@.lemma_filter_pred(id_differs(id), k);
    }
    assert forall|i: int, j: int|
        0 <= i < n.len() && 0 <= j < n.len() && i != j implies #[trigger] n[i].id@ != #[trigger] n[j].id@ by {
        if i < f.len() && j < f.len() {
            assert(n[i] == f[i] && n[j] == f[j]);
        } else if i < f.len() {
            assert(n[i] == f[i]);
        } else if j < f.len() {
            assert(n[j] == f[j]);
        }
    }
}

/// What reading a secret gives: `Unauthorized` for a refused password,
/// `NotFound` for an unknown id, else the first matching record decrypted
/// under the password's key and read as UTF-8.
pub open spec fn lookup(store: SecretStore, id: Seq<char>, password: Seq<char>) -> Result<Seq<char>, VaultError> {
    if !password_ok(store, password) {
        Err(VaultError::Unauthorized)
    } else {
        match first_with_id(store.secrets@, id) {
            None => Err(VaultError::NotFound),
            Some(i) => match decryption(
                derived_key(password),
                store.secrets@[i].encrypted_data@,
                store.secrets@[i].nonce@,
                seq![],
            ) {
                Err(e) => Err(e),
                Ok(b) => if valid_utf8(b) {
                    Ok(decode_utf8(b))
                } else {
                    Err(VaultError::EncodingFailure)
                },
            },
        }
    }
}

/// The password is accepted and the first record with `id` seals the bytes
/// of `payload` under the password's key.
pub open spec fn recovers(store: SecretStore, id: Seq<char>, password: Seq<char>, payload: Seq<char>) -> bool {
    password_ok(store, password) && match first_with_id(store.secrets@, id) {
        Some(i) => seals(
            derived_key(password),
            encode_utf8(payload),
            seq![],
            store.secrets@[i].encrypted_data@,
            store.secrets@[i].nonce@,
        ),
        None => false,
    }
}

/// Stores a payload under a password with the given creation time, replacing
/// every record with the same id.
pub fn store_secret(store: &mut SecretStore, secret: &str, master_password: &str, created_at: String) -> (r: Result<(), VaultError>)
    ensures
        !password_ok(*old(store), master_password@) ==> r == Err::<(), VaultError>(VaultError::Unauthorized),
        password_ok(*old(store), master_password@) && !payload_id_ok(secret@) ==> r == Err::<(), VaultError>(VaultError::MalformedSecret),
        password_ok(*old(store), master_password@) && payload_id_ok(secret@) && byte_len(secret@) < AEAD_MSG_LIMIT ==> r is Ok,
        r matches Err(e) ==> e == VaultError::Unauthorized || e == VaultError::MalformedSecret || e == VaultError::CryptoFailure,
        r is Ok ==> put_outcome(*old(store), *final(store), secret@, master_password@),
        r is Ok ==> final(store).secrets@.last().created_at == created_at,
        r is Err ==> *final(store) == *old(store),
        old(store).well_formed() ==> final(store).well_formed(),
{
    match verify_master_password(store, master_password) {
        Ok(_) => {},
        Err(e) => {
            return Err(e);
        },
    }
    let master_key = password_to_key(master_password);
    let id = match member_str(secret, "id") {
        Some(i) => i,
        None => {
            proof { reveal_strlit("id"); }
            return Err(VaultError::MalformedSecret);
        },
    };
    proof { reveal_strlit("id"); }
    if id.as_str().is_empty() {
        return Err(VaultError::MalformedSecret);
    }
    let name = match member_str(secret, "name") {
        Some(n) => n,
        None => "Untitled".to_owned(),
    };
    let secret_type = match member_str(secret, "type") {
        Some(t) => t,
        None => "generic".to_owned(),
    };
    let expires_at = match member_text(secret, "metadata") {
        Some(m) => member_str(m.as_str(), "expires_at"),
        None => None,
    };
    proof {
        reveal_strlit("name");
        reveal_strlit("type");
        reveal_strlit("metadata");
        reveal_strlit("expires_at");
        reveal_strlit("Untitled");
        reveal_strlit("generic");
    }
    let (encrypted_data, nonce) = match encrypt_with_key(&master_key, secret.as_bytes(), None) {
        Ok(pair) => pair,
        Err(e) => {
            return Err(e);
        },
    };
    let record = EncryptedSecret { id: id.clone(), encrypted_data, nonce, created_at, name, secret_type, expires_at };
    let mut kept = records_without(&store.secrets, &id);
    kept.push(record);
    store.secrets = kept;
    proof {
        assert(final(store).secrets@.drop_last() =~= without_id(old(store).secrets@, id@));
        if old(store).well_formed() {
            lemma_put_keeps_well_formed(*old(store), *final(store), secret@, master_password@);
        }
    }
    Ok(())
}

/// Stores a payload under a password, stamped with the current time.
pub fn save_secret(store: &mut SecretStore, secret: &str, master_password: &str) -> (r: Result<(), VaultError>)
    ensures
        !password_ok(*old(store), master_password@) ==> r == Err::<(), VaultError>(VaultError::Unauthorized),
        password_ok(*old(store), master_password@) && !payload_id_ok(secret@) ==> r == Err::<(), VaultError>(VaultError::MalformedSecret),
        password_ok(*old(store), master_password@) && payload_id_ok(secret@) && byte_len(secret@) < AEAD_MSG_LIMIT ==> r is Ok,
        r matches Err(e) ==> e == VaultError::Unauthorized || e == VaultError::MalformedSecret || e == VaultError::CryptoFailure,
        r is Ok ==> put_outcome(*old(store), *final(store), secret@, master_password@),
        r is Err ==> *final(store) == *old(store),
        old(store).well_formed() ==> final(store).well_formed(),
{
    let created_at = now_rfc3339();
    store_secret(store, secret, master_password, created_at)
}

/// The same operation as `save_secret`: there is no separate update.
pub fn update_secret(store: &mut SecretStore, secret: &str, master_password: &str) -> (r: Result<(), VaultError>)
    ensures
        !password_ok(*old(store), master_password@) ==> r == Err::<(), VaultError>(VaultError::Unauthorized),
        password_ok(*old(store), master_password@) && !payload_id_ok(secret@) ==> r == Err::<(), VaultError>(VaultError::MalformedSecret),
        password_ok(*old(store), master_password@) && payload_id_ok(secret@) && byte_len(secret@) < AEAD_MSG_LIMIT ==> r is Ok,
        r matches Err(e) ==> e == VaultError::Unauthorized || e == VaultError::MalformedSecret || e == VaultError::CryptoFailure,
        r is Ok ==> put_outcome(*old(store), *final(store), secret@, master_password@),
        r is Err ==> *final(store) == *old(store),
        old(store).well_formed() ==> final(store).well_formed(),
{
    save_secret(store, secret, master_password)
}

/// Reads and decrypts the secret with the given id.
pub fn get_secret(store: &SecretStore, id: &str, master_password: &str) -> (r: Result<String, VaultError>)
    ensures
        r matches Ok(t) ==> lookup(*store, id@, master_password@) == Ok::<Seq<char>, VaultError>(t@),
        r matches Err(e) ==> lookup(*store, id@, master_password@) == Err::<Seq<char>, VaultError>(e),
        forall|p: Seq<char>| recovers(*store, id@, master_password@, p) ==> (r.is_ok() && r.unwrap()@ == p),
{
    match verify_master_password(store, master_password) {
        Ok(_) => {},
        Err(e) => {
            return Err(e);
        },
    }
    let master_key = password_to_key(master_password);
    let key: String = id.to_owned();
    let i = match find_first(&store.secrets, &key) {
        Some(i) => i,
        None => {
            return Err(VaultError::NotFound);
        },
    };
    let encrypted = &store.secrets[i];
    let bytes = match decrypt_with_key(&master_key, encrypted.encrypted_data.as_str(), encrypted.nonce.as_str(), None) {
        Ok(b) => b,
        Err(e) => {
            return Err(e);
        },
    };
    let ghost plain = bytes@;
    match utf8_string(bytes) {
        Some(t) => {
            proof {
                assert forall|p: Seq<char>| recovers(*store, id@, master_password@, p) implies t@ == p by {
                    vstd::utf8::encode_utf8_decode_utf8(p);
                }
            }
            Ok(t)
        },
        None => {
            proof {
                assert forall|p: Seq<char>| !recovers(*store, id@, master_password@, p) by {
                    if recovers(*store, id@, master_password@, p) {
                        vstd::utf8::encode_utf8_valid_utf8(p);
                    }
                }
            }
            Err(VaultError::EncodingFailure)
        },
    }
}

/// `n` is `o` sealed anew: the same listing fields, and what `o` decrypts to
/// under the old password's key sealed under the new password's key.
pub open spec fn resealed(o: EncryptedSecret, n: EncryptedSecret, old_password: Seq<char>, new_password: Seq<char>) -> bool {
    &&& n.id == o.id
    &&& n.created_at == o.created_at
    &&& n.name == o.name
    &&& n.secret_type == o.secret_type
    &&& n.expires_at == o.expires_at
    &&& match decryption(derived_key(old_password), o.encrypted_data@, o.nonce@, seq![]) {
        Ok(m) => seals(derived_key(new_password), m, seq![], n.encrypted_data@, n.nonce@),
        Err(_) => false,
    }
}

/// Every record decrypts under the password's key to a message that the
/// cipher accepts again.
pub open spec fn all_records_open(secrets: Seq<EncryptedSecret>, password: Seq<char>) -> bool {
    forall|i: int|
        0 <= i < secrets.len() ==> (decryption(derived_key(password), #[trigger] secrets[i].encrypted_data@, secrets[i].nonce@, seq![]) matches Ok(m)
            && m.len() < AEAD_MSG_LIMIT)
}

/// Some record does not decrypt under the password's key.
pub open spec fn some_record_fails(secrets: Seq<EncryptedSecret>, password: Seq<char>) -> bool {
    exists|i: int|
        0 <= i < secrets.len() && decryption(derived_key(password), #[trigger] secrets[i].encrypted_data@, secrets[i].nonce@, seq![]) is Err
}

/// `new` is `old` after the master password moved from `old_password` to
/// `new_password`: every record sealed anew, in order, and the new hash kept.
pub open spec fn rotation_outcome(old: SecretStore, new: SecretStore, old_password: Seq<char>, new_password: Seq<char>) -> bool {
    &&& new.version == old.version
    &&& new.initialized == old.initialized
    &&& new.password_hash@ == verification_hash(new_password)
    &&& new.secrets@.len() == old.secrets@.len()
    &&& forall|i: int|
        0 <= i < old.secrets@.len() ==> resealed(#[trigger] old.secrets@[i], new.secrets@[i], old_password, new_password)
}

/// Moves the vault to a new master password, sealing every record anew.
/// All or nothing: on any failure the store is left exactly as it was.
pub fn change_master_password(store: &mut SecretStore, old_password: &str, new_password: &str) -> (r: Result<(), VaultError>)
    ensures
        byte_len(new_password@) < MIN_PASSWORD_LEN ==> r == Err::<(), VaultError>(VaultError::WeakPassword),
        byte_len(new_password@) >= MIN_PASSWORD_LEN && !password_ok(*old(store), old_password@) ==> r
            == Err::<(), VaultError>(VaultError::Unauthorized),
        byte_len(new_password@) >= MIN_PASSWORD_LEN && password_ok(*old(store), old_password@)
            && all_records_open(old(store).secrets@, old_password@) ==> r is Ok,
        some_record_fails(old(store).secrets@, old_password@) ==> r is Err,
        r matches Err(e) ==> e == VaultError::WeakPassword || e == VaultError::Unauthorized
            || e == VaultError::CryptoFailure || e == VaultError::EncodingFailure,
        r is Ok ==> rotation_outcome(*old(store), *final(store), old_password@, new_password@),
        r is Err ==> *final(store) == *old(store),
        old(store).well_formed() ==> final(store).well_formed(),
{
    if new_password.as_bytes().len() < MIN_PASSWORD_LEN {
        return Err(VaultError::WeakPassword);
    }
    match verify_master_password(store, old_password) {
        Ok(_) => {},
        Err(e) => {
            return Err(e);
        },
    }
    let old_key = password_to_key(old_password);
    let new_key = password_to_key(new_password);
    let mut rotated: Vec<EncryptedSecret> = Vec::new();
    let mut i: usize = 0;
    while i < store.secrets.len()
        invariant
            0 <= i <= store.secrets@.len(),
            rotated@.len() == i,
            *store == *old(store),
            byte_len(new_password@) >= MIN_PASSWORD_LEN,
            password_ok(*store, old_password@),
            old_key@ == derived_key(old_password@),
            new_key@ == derived_key(new_password@),
            forall|j: int| 0 <= j < i ==> resealed(#[trigger] store.secrets@[j], rotated@[j], old_password@, new_password@),
        decreases store.secrets@.len() - i,
    {
        let secret = &store.secrets[i];
        let decrypted = match decrypt_with_key(&old_key, secret.encrypted_data.as_str(), secret.nonce.as_str(), None) {
            Ok(d) => d,
            Err(e) => {
                proof {
                    assert(!all_records_open(store.secrets@, old_password@));
                }
                return Err(e);
            },
        };
        let (encrypted_data, nonce) = match encrypt_with_key(&new_key, decrypted.as_slice(), None) {
            Ok(pair) => pair,
            Err(e) => {
                proof {
                    assert(!all_records_open(store.secrets@, old_password@));
                }
                return Err(e);
            },
        };
        let record = EncryptedSecret {
            id: secret.id.clone(),
            encrypted_data,
            nonce,
            created_at: secret.created_at.clone(),
            name: secret.name.clone(),
            secret_type: secret.secret_type.clone(),
            expires_at: copy_opt(&secret.expires_at),
        };
        rotated.push(record);
        i = i + 1;
    }
    proof {
        assert(!some_record_fails(store.secrets@, old_password@));
    }
    store.secrets = rotated;
    store.password_hash = hash_password(new_password);
    proof {
        let o = old(store).secrets@;
        let n = final(store).secrets@;
        assert forall|a: int, b: int|
            0 <= a < n.len() && 0 <= b < n.len() && a != b && ids_unique(o) implies #[trigger] n[a].id@
                != #[trigger] n[b].id@ by {
            assert(resealed(o[a], n[a], old_password@, new_password@));
            assert(resealed(o[b], n[b], old_password@, new_password@));
        }
    }
    Ok(())
}

/// Chooses the document to work on from what the stored text parsed as:
/// the current schema wins; a document of the prior schema (version and
/// records only) keeps its records but must be initialized again; text that
/// parses as neither is `CorruptStore`.
pub fn migrate_store(current: Option<SecretStore>, previous: Option<Vec<EncryptedSecret>>) -> (r: Result<SecretStore, VaultError>)
    ensures
        current is Some ==> r == Ok::<SecretStore, VaultError>(current.unwrap()),
        current is None && previous is Some ==> (r matches Ok(s) && s.version == STORE_VERSION && !s.initialized
            && s.password_hash@.len() == 0 && s.secrets == previous.unwrap()),
        current is None && previous is None ==> r == Err::<SecretStore, VaultError>(VaultError::CorruptStore),
        current is Some && current.unwrap().well_formed() ==> (r matches Ok(s) && s.well_formed()),
        current is None && previous is Some && ids_unique(previous.unwrap()@) ==> (r matches Ok(s) && s.well_formed()),
{
    match current {
        Some(store) => Ok(store),
        None => match previous {
            Some(secrets) => Ok(SecretStore { version: STORE_VERSION, initialized: false, password_hash: String::new(), secrets }),
            None => Err(VaultError::CorruptStore),
        },
    }
}

} // verus!
