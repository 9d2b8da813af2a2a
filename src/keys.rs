//! Derivation of the verification hash and the encryption key from a master
//! password. Both are one SHA-256 pass; the key mixes in a fixed suffix so that
//! the two derivations differ.
use vstd::prelude::*;
use vstd::utf8::encode_utf8;
use crate::primitives::{hex_encode, hex_of, sha256, sha256_of};

verus! {

/// The fixed text appended to a password before hashing it into a key.
pub open spec fn key_salt() -> Seq<u8> {
    encode_utf8("encryption_key_salt"@)
}

/// The hex SHA-256 of the password's UTF-8 bytes, kept to verify passwords.
pub open spec fn verification_hash(password: Seq<char>) -> Seq<char> {
    hex_of(sha256_of(encode_utf8(password)))
}

/// The SHA-256 of the password's UTF-8 bytes followed by the salt text.
pub open spec fn derived_key(password: Seq<char>) -> Seq<u8> {
    sha256_of(encode_utf8(password) + key_salt())
}

/// Hex text has two digits for every byte.
pub proof fn lemma_hex_len(b: Seq<u8>)
    ensures
        hex_of(b).len() == 2 * b.len(),
    decreases b.len(),
{
    if b.len() > 0 {
        lemma_hex_len(b.drop_last());
    }
}

/// The verification hash of a password: 64 hex digits.
pub fn hash_password(password: &str) -> (r: String)
    ensures
        r@ == verification_hash(password@),
        r@.len() == 64,
{
    let digest = sha256(password.as_bytes());
    proof {
        vstd::array::array_len_matches_n(&digest);
        lemma_hex_len(digest@);
    }
    hex_encode(&digest)
}

/// The 32-byte encryption key of a password.
pub fn password_to_key(password: &str) -> (r: [u8; 32])
    ensures
        r@ == derived_key(password@),
{
    let salt: &str = "encryption_key_salt";
    let mut material: Vec<u8> = vstd::slice::slice_to_vec(password.as_bytes());
    material.extend_from_slice(salt.as_bytes());
    proof {
        reveal_strlit("encryption_key_salt");
        assert(material@ =~= encode_utf8(password@) + key_salt());
    }
    sha256(material.as_slice())
}

} // verus!
