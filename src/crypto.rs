//! Authenticated encryption of byte payloads into storable text, with a fresh
//! random nonce for every message.
use vstd::prelude::*;
use crate::error::VaultError;
use crate::primitives::{
    AEAD_MSG_LIMIT, NONCE_LEN, aead_decrypt, aead_encrypt, aead_open, aead_seal, base64_bytes,
    base64_decode, base64_encode, base64_text, random_nonce,
};

verus! {

/// The associated data that an optional argument stands for: none is empty.
pub open spec fn aad_bytes(aad: Option<&[u8]>) -> Seq<u8> {
    match aad {
        Some(a) => a@,
        None => seq![],
    }
}

/// `ct` and `nonce` are the base64 text of `msg` sealed under `key` and `aad`
/// with some 24-byte nonce.
pub open spec fn seals(key: Seq<u8>, msg: Seq<u8>, aad: Seq<u8>, ct: Seq<char>, nonce: Seq<char>) -> bool {
    exists|n: Seq<u8>|
        n.len() == NONCE_LEN && nonce == base64_text(n) && ct == base64_text(
            #[trigger] aead_seal(key, n, msg, aad),
        )
}

/// What decrypting stored text gives: `EncodingFailure` where either text is
/// not base64, `CryptoFailure` where the nonce has the wrong size or the tag
/// does not verify, and the message otherwise.
pub open spec fn decryption(key: Seq<u8>, ct: Seq<char>, nonce: Seq<char>, aad: Seq<u8>) -> Result<Seq<u8>, VaultError> {
    match (base64_bytes(ct), base64_bytes(nonce)) {
        (Some(c), Some(n)) => if n.len() != NONCE_LEN {
            Err(VaultError::CryptoFailure)
        } else {
            match aead_open(key, n, c, aad) {
                Some(p) => Ok(p),
                None => Err(VaultError::CryptoFailure),
            }
        },
        _ => Err(VaultError::EncodingFailure),
    }
}

/// Seals `plain` under a fresh random nonce and returns the ciphertext and
/// the nonce, both as base64 text.
pub fn encrypt_with_key(key_bytes: &[u8; 32], plain: &[u8], aad: Option<&[u8]>) -> (r: Result<(String, String), VaultError>)
    ensures
        plain@.len() < AEAD_MSG_LIMIT ==> r is Ok,
        r matches Ok((c, n)) ==> seals(key_bytes@, plain@, aad_bytes(aad), c@, n@),
        r matches Err(e) ==> e == VaultError::CryptoFailure,
{
    let nonce = random_nonce();
    let nonce_bytes: &[u8] = &nonce;
    let empty: Vec<u8> = Vec::new();
    let a: &[u8] = match aad {
        Some(a) => a,
        None => empty.as_slice(),
    };
    match aead_encrypt(key_bytes, nonce_bytes, plain, a) {
        Some(ct) => {
            let c = base64_encode(ct.as_slice());
            let n = base64_encode(nonce_bytes);
            assert(aead_seal(key_bytes@, nonce_bytes@, plain@, aad_bytes(aad)) == ct@);
            Ok((c, n))
        },
        None => Err(VaultError::CryptoFailure),
    }
}

/// Decodes stored ciphertext and nonce and opens the ciphertext; a message
/// sealed by `encrypt_with_key` under the same key and data comes back.
pub fn decrypt_with_key(key_bytes: &[u8; 32], cipher_b64: &str, nonce_b64: &str, aad: Option<&[u8]>) -> (r: Result<Vec<u8>, VaultError>)
    ensures
        r matches Ok(p) ==> decryption(key_bytes@, cipher_b64@, nonce_b64@, aad_bytes(aad)) == Ok::<Seq<u8>, VaultError>(p@),
        r matches Err(e) ==> decryption(key_bytes@, cipher_b64@, nonce_b64@, aad_bytes(aad)) == Err::<Seq<u8>, VaultError>(e),
        forall|m: Seq<u8>|
            seals(key_bytes@, m, aad_bytes(aad), cipher_b64@, nonce_b64@) ==> (r matches Ok(p) && p@ == m),
{
    let empty: Vec<u8> = Vec::new();
    let a: &[u8] = match aad {
        Some(a) => a,
        None => empty.as_slice(),
    };
    let cipher_bytes = match base64_decode(cipher_b64) {
        Some(c) => c,
        None => {
            return Err(VaultError::EncodingFailure);
        },
    };
    let nonce_bytes = match base64_decode(nonce_b64) {
        Some(n) => n,
        None => {
            return Err(VaultError::EncodingFailure);
        },
    };
    if nonce_bytes.len() != NONCE_LEN {
        return Err(VaultError::CryptoFailure);
    }
    match aead_decrypt(key_bytes, nonce_bytes.as_slice(), cipher_bytes.as_slice(), a) {
        Some(p) => Ok(p),
        None => Err(VaultError::CryptoFailure),
    }
}

} // verus!
