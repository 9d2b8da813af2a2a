//! The earlier credential store, in which a random master key is kept sealed
//! under a key hashed from the password (without the salt of the current
//! derivation).
use vstd::prelude::*;
use vstd::utf8::{decode_utf8, encode_utf8, valid_utf8};
use crate::crypto::{decrypt_with_key, decryption, encrypt_with_key, seals};
use crate::error::VaultError;
use crate::primitives::{sha256, sha256_of, utf8_string};

verus! {

/// A credential of the earlier store; every text field but the id and the
/// time is ciphertext.
#[derive(Debug)]
pub struct CredentialItem {
    pub id: String,
    pub created_at: String,
    pub nonce: String,
    pub name: String,
    pub login: String,
    pub password: String,
    pub host: String,
}

/// A master key sealed under a password's key, as base64 text.
#[derive(Debug)]
pub struct MasterKeyEncrypted {
    pub ciphertext: String,
    pub nonce: String,
}

/// The earlier store document.
#[derive(Debug)]
pub struct Store {
    pub version: u32,
    pub items: Vec<CredentialItem>,
    pub master_enc: Option<MasterKeyEncrypted>,
}

/// The key of a password in the earlier store: the SHA-256 of its UTF-8 bytes.
pub open spec fn legacy_key(password: Seq<char>) -> Seq<u8> {
    sha256_of(encode_utf8(password))
}

/// What opening a sealed master key gives: the decryption's error, a
/// `CryptoFailure` where the message is not 32 bytes, else the key.
pub open spec fn master_opening(enc: MasterKeyEncrypted, password: Seq<char>) -> Result<Seq<u8>, VaultError> {
    match decryption(legacy_key(password), enc.ciphertext@, enc.nonce@, seq![]) {
        Err(e) => Err(e),
        Ok(m) => if m.len() == 32 {
            Ok(m)
        } else {
            Err(VaultError::CryptoFailure)
        },
    }
}

fn password_to_key(password: &str) -> (r: [u8; 32])
    ensures
        r@ == legacy_key(password@),
{
    sha256(password.as_bytes())
}

/// Seals a master key under the key of a password.
pub fn encrypt_master(master: &[u8; 32], password: &str) -> (r: Result<MasterKeyEncrypted, VaultError>)
    ensures
        r is Ok,
        r matches Ok(enc) ==> seals(legacy_key(password@), master@, seq![], enc.ciphertext@, enc.nonce@),
{
    let key = password_to_key(password);
    let (ciphertext, nonce) = match encrypt_with_key(&key, master, None) {
        Ok(pair) => pair,
        Err(e) => {
            return Err(e);
        },
    };
    Ok(MasterKeyEncrypted { ciphertext, nonce })
}

/// Opens a sealed master key with a password.
pub fn decrypt_master(enc: &MasterKeyEncrypted, password: &str) -> (r: Result<[u8; 32], VaultError>)
    ensures
        r matches Ok(k) ==> master_opening(*enc, password@) == Ok::<Seq<u8>, VaultError>(k@),
        r matches Err(e) ==> master_opening(*enc, password@) == Err::<Seq<u8>, VaultError>(e),
        forall|m: Seq<u8>|
            m.len() == 32 && seals(legacy_key(password@), m, seq![], enc.ciphertext@, enc.nonce@) ==> (r.is_ok()
                && r.unwrap()@ == m),
{
    let key = password_to_key(password);
    let plain = match decrypt_with_key(&key, enc.ciphertext.as_str(), enc.nonce.as_str(), None) {
        Ok(p) => p,
        Err(e) => {
            return Err(e);
        },
    };
    if plain.len() != 32 {
        return Err(VaultError::CryptoFailure);
    }
    let mut master: [u8; 32] = [0u8; 32];
    let mut i: usize = 0;
    while i < 32
        invariant
            0 <= i <= 32,
            plain@.len() == 32,
            forall|j: int| 0 <= j < i ==> master@[j] == plain@[j],
        decreases 32 - i,
    {
        master.set(i, plain[i]);
        i = i + 1;
    }
    proof {
        assert(master@ =~= plain@);
    }
    Ok(master)
}

/// Opens the master key of the earlier store; `NotFound` where none is kept.
pub fn get_master_bytes(st: &Store, password: &str) -> (r: Result<[u8; 32], VaultError>)
    ensures
        st.master_enc is None ==> r == Err::<[u8; 32], VaultError>(VaultError::NotFound),
        st.master_enc matches Some(enc) ==> (match r {
            Ok(k) => master_opening(enc, password@) == Ok::<Seq<u8>, VaultError>(k@),
            Err(e) => master_opening(enc, password@) == Err::<Seq<u8>, VaultError>(e),
        }),
{
    match &st.master_enc {
        Some(enc) => decrypt_master(enc, password),
        None => Err(VaultError::NotFound),
    }
}

/// The id and creation time of every credential, in order.
pub fn list_items(st: &Store) -> (r: Vec<(String, String)>)
    ensures
        r@.len() == st.items@.len(),
        forall|i: int| 0 <= i < r@.len() ==> (#[trigger] r@[i]).0 == st.items@[i].id && r@[i].1 == st.items@[i].created_at,
{
    let mut out: Vec<(String, String)> = Vec::new();
    let mut i: usize = 0;
    while i < st.items.len()
        invariant
            0 <= i <= st.items@.len(),
            out@.len() == i,
            forall|j: int| 0 <= j < i ==> (#[trigger] out@[j]).0 == st.items@[j].id && out@[j].1 == st.items@[j].created_at,
        decreases st.items@.len() - i,
    {
        out.push((st.items[i].id.clone(), st.items[i].created_at.clone()));
        i = i + 1;
    }
    out
}

/// What a sealed credential field opens to under a master key with the given
/// nonce text: the decryption's error, `EncodingFailure` for bytes that are
/// not UTF-8, else the text.
pub open spec fn field_opening(master: Seq<u8>, ct: Seq<char>, nonce: Seq<char>) -> Result<Seq<char>, VaultError> {
    match decryption(master, ct, nonce, seq![]) {
        Err(e) => Err(e),
        Ok(b) => if valid_utf8(b) {
            Ok(decode_utf8(b))
        } else {
            Err(VaultError::EncodingFailure)
        },
    }
}

/// The records whose id differs from `id`, in order.
pub open spec fn items_without(items: Seq<CredentialItem>, id: Seq<char>) -> Seq<CredentialItem> {
    items.filter(item_id_differs(id))
}

/// Whether a credential's id differs from `id`.
pub open spec fn item_id_differs(id: Seq<char>) -> spec_fn(CredentialItem) -> bool {
    |c: CredentialItem| c.id@ != id
}

fn open_field(master: &[u8; 32], ct: &String, nonce: &String) -> (r: Result<String, VaultError>)
    ensures
        r matches Ok(t) ==> field_opening(master@, ct@, nonce@) == Ok::<Seq<char>, VaultError>(t@),
        r matches Err(e) ==> field_opening(master@, ct@, nonce@) == Err::<Seq<char>, VaultError>(e),
{
    let bytes = match decrypt_with_key(master, ct.as_str(), nonce.as_str(), None) {
        Ok(b) => b,
        Err(e) => {
            return Err(e);
        },
    };
    match utf8_string(bytes) {
        Some(t) => Ok(t),
        None => Err(VaultError::EncodingFailure),
    }
}

/// The credentials whose id differs from `id`, in order.
fn items_other_than(items: Vec<CredentialItem>, id: &String) -> (r: Vec<CredentialItem>)
    ensures
        r@ == items_without(items@, id@),
{
    let ghost pred = item_id_differs(id@);
    let ghost all = items@;
    let mut rest = items;
    let mut kept: Vec<CredentialItem> = Vec::new();
    proof {
        reveal(Seq::filter);
        assert(all.subrange(0, 0) =~= Seq::<CredentialItem>::empty());
    }
    let n = rest.len();
    let mut taken: Vec<CredentialItem> = Vec::new();
    let mut i: usize = 0;
    // Move the items out from the back, then walk them from the front.
    while rest.len() > 0
        invariant
            rest@ + taken@.reverse() == all,
        decreases rest@.len(),
    {
        let c = rest.pop().unwrap();
        proof {
            assert(rest@.push(c) + taken@.reverse() =~= rest@ + taken@.push(c).reverse());
        }
        taken.push(c);
    }
    proof {
        assert(taken@.reverse() =~= all);
    }
    while taken.len() > 0
        invariant
            0 <= i <= n,
            n == all.len(),
            i + taken@.len() == n,
            forall|j: int| 0 <= j < taken@.len() ==> taken@[j] == all[n - 1 - j],
            pred == item_id_differs(id@),
            kept@ == all.subrange(0, i as int).filter(pred),
        decreases taken@.len(),
    {
        let c = taken.pop().unwrap();
        proof {
            assert(c == all[i as int]);
            assert(all.subrange(0, i as int + 1).drop_last() =~= all.subrange(0, i as int));
        }
        let keep = c.id != *id;
        if keep {
            kept.push(c);
        }
        proof {
            let s = all.subrange(0, i as int + 1);
            assert(s.last() == all[i as int]);
            reveal(Seq::filter);
            assert(pred(all[i as int]) == keep);
        }
        i = i + 1;
    }
    proof {
        assert(all.subrange(0, n as int) =~= all);
    }
    kept
}

/// Seals a credential's fields under the store's master key and puts it in
/// place of every credential with the same id.
pub fn encrypt_item(
    st: &mut Store,
    id: String,
    name: String,
    login: String,
    password_field: String,
    host: String,
    master_password: &str,
    created_at: String,
) -> (r: Result<(), VaultError>)
    ensures
        old(st).master_enc is None ==> r == Err::<(), VaultError>(VaultError::NotFound),
        r is Err ==> *final(st) == *old(st),
        r is Ok ==> (old(st).master_enc matches Some(enc) && master_opening(enc, master_password@) is Ok),
        r is Ok ==> final(st).items@.len() > 0 && final(st).items@.drop_last() == items_without(old(st).items@, id@),
        r is Ok ==> final(st).master_enc == old(st).master_enc && final(st).version == old(st).version,
        r is Ok ==> ({
            let c = final(st).items@.last();
            let k = master_opening(old(st).master_enc.unwrap(), master_password@)->Ok_0;
            &&& c.id == id
            &&& c.created_at == created_at
            &&& seals(k, encode_utf8(name@), seq![], c.name@, c.nonce@)
            &&& exists|n: Seq<char>| seals(k, encode_utf8(login@), seq![], c.login@, n)
            &&& exists|n: Seq<char>| seals(k, encode_utf8(password_field@), seq![], c.password@, n)
            &&& exists|n: Seq<char>| seals(k, encode_utf8(host@), seq![], c.host@, n)
        }),
{
    let master_key = match get_master_bytes(st, master_password) {
        Ok(k) => k,
        Err(e) => {
            return Err(e);
        },
    };
    let (enc_name, nonce_name) = match encrypt_with_key(&master_key, name.as_str().as_bytes(), None) {
        Ok(p) => p,
        Err(e) => {
            return Err(e);
        },
    };
    let (enc_login, _nonce_login) = match encrypt_with_key(&master_key, login.as_str().as_bytes(), None) {
        Ok(p) => p,
        Err(e) => {
            return Err(e);
        },
    };
    let (enc_pass, _nonce_pass) = match encrypt_with_key(&master_key, password_field.as_str().as_bytes(), None) {
        Ok(p) => p,
        Err(e) => {
            return Err(e);
        },
    };
    let (enc_host, _nonce_host) = match encrypt_with_key(&master_key, host.as_str().as_bytes(), None) {
        Ok(p) => p,
        Err(e) => {
            return Err(e);
        },
    };
    let item = CredentialItem {
        id: id.clone(),
        created_at,
        nonce: nonce_name,
        name: enc_name,
        login: enc_login,
        password: enc_pass,
        host: enc_host,
    };
    proof {
        assert(seals(master_key@, encode_utf8(login@), seq![], enc_login@, _nonce_login@));
        assert(seals(master_key@, encode_utf8(password_field@), seq![], enc_pass@, _nonce_pass@));
        assert(seals(master_key@, encode_utf8(host@), seq![], enc_host@, _nonce_host@));
    }
    let mut items: Vec<CredentialItem> = Vec::new();
    std::mem::swap(&mut items, &mut st.items);
    let mut kept = items_other_than(items, &id);
    kept.push(item);
    st.items = kept;
    proof {
        assert(final(st).items@.drop_last() =~= items_without(old(st).items@, id@));
        let c = final(st).items@.last();
        assert(master_opening(old(st).master_enc.unwrap(), master_password@)->Ok_0 == master_key@);
        assert(seals(master_key@, encode_utf8(name@), seq![], c.name@, c.nonce@));
        assert(c.login == enc_login && c.password == enc_pass && c.host == enc_host);
    }
    Ok(())
}

/// Opens the fields of the first credential with the given id, each with the
/// nonce that the credential keeps.
pub fn decrypt_item(st: &Store, id: &str, master_password: &str) -> (r: Result<(String, String, String, String), VaultError>)
    ensures
        st.master_enc is None ==> r == Err::<(String, String, String, String), VaultError>(VaultError::NotFound),
        r is Ok ==> ({
            let k = master_opening(st.master_enc.unwrap(), master_password@)->Ok_0;
            &&& master_opening(st.master_enc.unwrap(), master_password@) is Ok
            &&& exists|i: int|
                0 <= i < st.items@.len() && #[trigger] st.items@[i].id@ == id@ && (forall|j: int|
                    0 <= j < i ==> st.items@[j].id@ != id@) && ({
                    let c = st.items@[i];
                    let (a, b, p, h) = r->Ok_0;
                    &&& field_opening(k, c.name@, c.nonce@) == Ok::<Seq<char>, VaultError>(a@)
                    &&& field_opening(k, c.login@, c.nonce@) == Ok::<Seq<char>, VaultError>(b@)
                    &&& field_opening(k, c.password@, c.nonce@) == Ok::<Seq<char>, VaultError>(p@)
                    &&& field_opening(k, c.host@, c.nonce@) == Ok::<Seq<char>, VaultError>(h@)
                })
        }),
        st.master_enc is Some && master_opening(st.master_enc.unwrap(), master_password@) is Ok
            && (forall|i: int| 0 <= i < st.items@.len() ==> #[trigger] st.items@[i].id@ != id@) ==> r
            == Err::<(String, String, String, String), VaultError>(VaultError::NotFound),
{
    let master_key = match get_master_bytes(st, master_password) {
        Ok(k) => k,
        Err(e) => {
            return Err(e);
        },
    };
    let key: String = id.to_owned();
    let mut i: usize = 0;
    while i < st.items.len()
        invariant
            0 <= i <= st.items@.len(),
            forall|j: int| 0 <= j < i ==> st.items@[j].id@ != id@,
            key@ == id@,
            st.master_enc is Some,
            master_opening(st.master_enc.unwrap(), master_password@) == Ok::<Seq<u8>, VaultError>(master_key@),
        decreases st.items@.len() - i,
    {
        if st.items[i].id == key {
            let item = &st.items[i];
            let name = open_field(&master_key, &item.name, &item.nonce)?;
            let login = open_field(&master_key, &item.login, &item.nonce)?;
            let password_field = open_field(&master_key, &item.password, &item.nonce)?;
            let host = open_field(&master_key, &item.host, &item.nonce)?;
            proof {
                assert(st.items@[i as int].id@ == id@);
            }
            return Ok((name, login, password_field, host));
        }
        i = i + 1;
    }
    Err(VaultError::NotFound)
}

/// Removes every credential with the given id; an unknown id is no error.
pub fn delete_item(st: &mut Store, id: &str) -> (r: Result<(), VaultError>)
    ensures
        r is Ok,
        final(st).items@ == items_without(old(st).items@, id@),
        final(st).version == old(st).version,
        final(st).master_enc == old(st).master_enc,
{
    let key: String = id.to_owned();
    let mut items: Vec<CredentialItem> = Vec::new();
    std::mem::swap(&mut items, &mut st.items);
    st.items = items_other_than(items, &key);
    Ok(())
}

} // verus!
