use vstd::prelude::*;

verus! {

/// Why an operation on the vault failed.
#[derive(Clone, Copy, Debug, PartialEq, Eq, Structural)]
pub enum VaultError {
    /// A new master password is shorter than eight bytes.
    WeakPassword,
    /// The vault already has a master password.
    AlreadyInitialized,
    /// The password is wrong, or the vault has no master password yet.
    Unauthorized,
    /// No secret has the requested id.
    NotFound,
    /// A secret payload lacks a non-empty string `id`.
    MalformedSecret,
    /// Authenticated decryption failed, or a nonce had the wrong size.
    CryptoFailure,
    /// Stored text is not valid base64, or decrypted bytes are not UTF-8.
    EncodingFailure,
    /// The stored document matches no known schema.
    CorruptStore,
    /// Reading or writing the store file failed.
    IoFailure,
}

impl VaultError {
    /// A human-readable description of the failure.
    pub fn message(&self) -> (r: &'static str) {
        match self {
            VaultError::WeakPassword => "the master password must hold at least 8 bytes",
            VaultError::AlreadyInitialized => "the vault is already initialized",
            VaultError::Unauthorized => "wrong master password, or the vault is not initialized",
            VaultError::NotFound => "no secret with this id",
            VaultError::MalformedSecret => "the secret has no non-empty string id",
            VaultError::CryptoFailure => "decryption failed",
            VaultError::EncodingFailure => "stored data is not validly encoded",
            VaultError::CorruptStore => "the vault file cannot be parsed",
            VaultError::IoFailure => "reading or writing the vault file failed",
        }
    }
}

} // verus!
