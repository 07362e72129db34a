//! The error taxonomy shared by every component of the core.

use vstd::prelude::*;

verus! {

/// Every failure the core can report. Connection-level protocol violations,
/// per-message crypto failures and store failures are kept apart so that a
/// caller can recover locally where the design asks for it.
#[derive(Clone, Debug)]
pub enum Error {
    /// The backing store was unavailable or an operation on it failed.
    Database(String),
    /// The acting user is not authorized for the entity it addressed.
    Authentication(String),
    /// An unknown conversation, message or session was addressed.
    NotFound(String),
    /// A malformed request, e.g. a conversation with fewer than two
    /// participants, or a sender marking its own message as read.
    Validation(String),
    /// A key-management failure, e.g. no session key for a conversation.
    Encryption(String),
    /// An internal invariant was violated.
    Internal(String),
    /// The random source was unavailable during key generation.
    KeyGeneration,
    /// The authenticated-encryption step itself failed.
    Encrypt(String),
    /// The authentication tag did not verify: tampered ciphertext, wrong
    /// key, or wrong nonce.
    Decrypt(String),
    /// The nonce is not exactly 96 bits (12 bytes).
    InvalidNonce,
}

impl Error {
    /// A human-readable rendering of the error, in place of `Display`.
    pub fn message(&self) -> String {
        match self {
            Error::Database(d) => String::from_str("Database error: ").concat(d.as_str()),
            Error::Authentication(d) => String::from_str("Authentication error: ").concat(
                d.as_str(),
            ),
            Error::NotFound(d) => String::from_str("Not found: ").concat(d.as_str()),
            Error::Validation(d) => String::from_str("Validation error: ").concat(d.as_str()),
            Error::Encryption(d) => String::from_str("Encryption error: ").concat(d.as_str()),
            Error::Internal(d) => String::from_str("Internal error: ").concat(d.as_str()),
            Error::KeyGeneration => String::from_str("Key generation failed"),
            Error::Encrypt(d) => String::from_str("Encryption failed: ").concat(d.as_str()),
            Error::Decrypt(d) => String::from_str("Decryption failed: ").concat(d.as_str()),
            Error::InvalidNonce => String::from_str("Invalid nonce"),
        }
    }
}

} // verus!
