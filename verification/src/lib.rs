//! Decoding of encrypted messenger backup files.
//!
//! A backup is a length-prefixed header region followed by length-prefixed
//! frames. Every frame carries a ciphertext and a truncated authentication
//! tag. This crate splits the byte stream into regions, derives the session
//! keys from a passphrase, authenticates each frame and decrypts it. Turning
//! the recovered plaintext into typed records is left to the caller.

pub mod util;
pub mod primitives;
pub mod hkdf3;
pub mod keys;
pub mod error;
pub mod signal;
pub mod cursor;
pub mod frame;
pub mod decrypt;
