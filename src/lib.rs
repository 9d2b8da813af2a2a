//! An encrypted local vault: typed secrets sealed under a key derived from one
//! master password, with password verification and rotation.

pub mod error;
pub mod primitives;
pub mod crypto;
pub mod keys;
pub mod secrets;
pub mod legacy;
pub mod tray;
pub mod laws;
