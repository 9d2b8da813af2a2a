//! Trusted entry points into the outside crates that the vault composes:
//! hashing, hex and base64 text, the XChaCha20-Poly1305 cipher, the system's
//! random source and clock, JSON member lookup and UTF-8 decoding.
use vstd::prelude::*;
use vstd::utf8::*;
use base64::Engine;
use chacha20poly1305::aead::{Aead, KeyInit, Payload};
use rand::RngCore;
use sha2::Digest;

verus! {

/// The size in bytes of a cipher key.
pub const KEY_LEN: usize = 32;

/// The size in bytes of an extended nonce.
pub const NONCE_LEN: usize = 24;

/// Messages shorter than this are always accepted by the cipher
/// (64 bytes times one less than 2^32 blocks).
pub const AEAD_MSG_LIMIT: u64 = 0x3f_ffff_ffc0;

/// SHA-256 of a byte sequence.
pub uninterp spec fn sha256_of(b: Seq<u8>) -> Seq<u8>;

/// The standard, padded base64 text of a byte sequence.
pub uninterp spec fn base64_text(b: Seq<u8>) -> Seq<char>;

/// What standard, padded base64 decoding makes of a text; `None` where it is
/// not valid base64.
pub uninterp spec fn base64_bytes(s: Seq<char>) -> Option<Seq<u8>>;

/// XChaCha20-Poly1305 ciphertext (with its tag) of `msg` under `key`, `nonce`
/// and associated data `aad`.
pub uninterp spec fn aead_seal(key: Seq<u8>, nonce: Seq<u8>, msg: Seq<u8>, aad: Seq<u8>) -> Seq<u8>;

/// XChaCha20-Poly1305 authenticated decryption; `None` where the tag fails.
pub uninterp spec fn aead_open(key: Seq<u8>, nonce: Seq<u8>, ct: Seq<u8>, aad: Seq<u8>) -> Option<Seq<u8>>;

/// The string value of member `key` of the JSON object in `doc`; `None` where
/// `doc` is no JSON object, or the member is missing or not a string.
pub uninterp spec fn json_member_str(doc: Seq<char>, key: Seq<char>) -> Option<Seq<char>>;

/// The compact JSON text of member `key` of the JSON object in `doc`; `None`
/// where `doc` is no JSON object or the member is missing.
pub uninterp spec fn json_member_text(doc: Seq<char>, key: Seq<char>) -> Option<Seq<char>>;

/// The lower-case hex digit of a value below 16.
pub open spec fn hex_digit(v: u8) -> char {
    if v < 10 {
        (('0' as u8) + v) as char
    } else {
        (('a' as u8) + (v - 10)) as char
    }
}

/// Lower-case hex text, two digits per byte, high nibble first.
pub open spec fn hex_of(b: Seq<u8>) -> Seq<char>
    decreases b.len(),
{
    if b.len() == 0 {
        seq![]
    } else {
        hex_of(b.drop_last()) + seq![hex_digit(b.last() / 16), hex_digit(b.last() % 16)]
    }
}

/// Relies on sha2's `Sha256::digest`: the 32-byte digest of the input.
#[verifier::external_body]
pub(crate) fn sha256(b: &[u8]) -> (r: [u8; 32])
    ensures
        r@ == sha256_of(b@),
{
    sha2::Sha256::digest(b).into()
}

/// Relies on hex's `encode`: lower-case digits, two per byte, in order.
#[verifier::external_body]
pub(crate) fn hex_encode(b: &[u8]) -> (r: String)
    ensures
        r@ == hex_of(b@),
{
    hex::encode(b)
}

/// Relies on base64's `STANDARD.encode`.
#[verifier::external_body]
pub(crate) fn base64_encode(b: &[u8]) -> (r: String)
    ensures
        r@ == base64_text(b@),
{
    base64::engine::general_purpose::STANDARD.encode(b)
}

/// Relies on base64's `STANDARD.decode`, which inverts `STANDARD.encode`.
#[verifier::external_body]
pub(crate) fn base64_decode(s: &str) -> (r: Option<Vec<u8>>)
    ensures
        r is None <==> base64_bytes(s@) is None,
        r matches Some(b) ==> base64_bytes(s@) == Some(b@),
        forall|b: Seq<u8>| #[trigger] base64_text(b) == s@ ==> r.is_some() && r.unwrap()@ == b,
{
    base64::engine::general_purpose::STANDARD.decode(s).ok()
}

/// Relies on chacha20poly1305's `XChaCha20Poly1305::encrypt`, which fails only
/// when the message reaches `AEAD_MSG_LIMIT` bytes.
#[verifier::external_body]
pub(crate) fn aead_encrypt(key: &[u8; 32], nonce: &[u8], msg: &[u8], aad: &[u8]) -> (r: Option<Vec<u8>>)
    requires
        nonce@.len() == NONCE_LEN,
    ensures
        msg@.len() < AEAD_MSG_LIMIT ==> r is Some,
        r matches Some(c) ==> c@ == aead_seal(key@, nonce@, msg@, aad@),
{
    let cipher = chacha20poly1305::XChaCha20Poly1305::new(chacha20poly1305::Key::from_slice(key));
    cipher.encrypt(chacha20poly1305::XNonce::from_slice(nonce), Payload { msg, aad }).ok()
}

/// Relies on chacha20poly1305's `XChaCha20Poly1305::decrypt`: it returns the
/// message that was sealed under the same key, nonce and associated data.
#[verifier::external_body]
pub(crate) fn aead_decrypt(key: &[u8; 32], nonce: &[u8], ct: &[u8], aad: &[u8]) -> (r: Option<Vec<u8>>)
    requires
        nonce@.len() == NONCE_LEN,
    ensures
        r is None <==> aead_open(key@, nonce@, ct@, aad@) is None,
        r matches Some(p) ==> aead_open(key@, nonce@, ct@, aad@) == Some(p@),
        forall|m: Seq<u8>|
            #[trigger] aead_seal(key@, nonce@, m, aad@) == ct@ ==> r.is_some() && r.unwrap()@ == m,
{
    let cipher = chacha20poly1305::XChaCha20Poly1305::new(chacha20poly1305::Key::from_slice(key));
    cipher.decrypt(chacha20poly1305::XNonce::from_slice(nonce), Payload { msg: ct, aad }).ok()
}

/// Relies on rand's `OsRng::fill_bytes`: fresh bytes from the operating
/// system's secure random source, of which nothing else is known.
#[verifier::external_body]
pub(crate) fn random_nonce() -> (r: [u8; 24]) {
    let mut n = [0u8; 24];
    rand::rngs::OsRng.fill_bytes(&mut n);
    n
}

/// Relies on chrono's `Utc::now().to_rfc3339()`: the current time as text.
#[verifier::external_body]
pub(crate) fn now_rfc3339() -> (r: String) {
    chrono::Utc::now().to_rfc3339()
}

/// Relies on serde_json's `from_str` and `Value::get`: a string member of a
/// JSON object.
#[verifier::external_body]
pub(crate) fn member_str(doc: &str, key: &str) -> (r: Option<String>)
    ensures
        r is None <==> json_member_str(doc@, key@) is None,
        r matches Some(s) ==> json_member_str(doc@, key@) == Some(s@),
{
    match serde_json::from_str::<serde_json::Value>(doc) {
        Ok(v) => match v.get(key) {
            Some(serde_json::Value::String(s)) => Some(s.clone()),
            _ => None,
        },
        Err(_) => None,
    }
}

/// Relies on serde_json's `from_str`, `Value::get` and `to_string`: the text
/// of a member of a JSON object.
#[verifier::external_body]
pub(crate) fn member_text(doc: &str, key: &str) -> (r: Option<String>)
    ensures
        r is None <==> json_member_text(doc@, key@) is None,
        r matches Some(s) ==> json_member_text(doc@, key@) == Some(s@),
{
    match serde_json::from_str::<serde_json::Value>(doc) {
        Ok(v) => match v.get(key) {
            Some(m) => serde_json::to_string(m).ok(),
            None => None,
        },
        Err(_) => None,
    }
}

/// Relies on std's `String::from_utf8`: it succeeds exactly on valid UTF-8
/// and keeps the bytes.
#[verifier::external_body]
pub(crate) fn utf8_string(b: Vec<u8>) -> (r: Option<String>)
    ensures
        r is None <==> !valid_utf8(b@),
        r matches Some(s) ==> valid_utf8(b@) && s@ == decode_utf8(b@),
{
    String::from_utf8(b).ok()
}

} // verus!
