//! The failures that the key lifecycle can report.

use vstd::prelude::*;

verus! {

/// Why an operation of the key lifecycle failed.
#[derive(Clone, Copy, Debug, PartialEq, Eq, Structural)]
pub enum AuthError {
    /// The secure random source could not deliver bytes.
    RandomnessError,
    /// The persisted master key does not decode to exactly 32 bytes.
    InvalidKeyLength,
    /// The cipher refused to seal the value.
    EncryptionFailed,
    /// A sealed value is malformed, was tampered with, or belongs to another
    /// key or salt.
    DecryptionFailed,
    /// The durable store could not be read or written.
    PersistenceError,
}

impl AuthError {
    /// The text shown for this failure.
    pub fn message(&self) -> (text: &'static str)
        ensures
            text@ == self.spec_message(),
    {
        match self {
            AuthError::RandomnessError => "Failed to generate random bytes",
            AuthError::InvalidKeyLength => "Invalid master key length",
            AuthError::EncryptionFailed => "Encryption failed",
            AuthError::DecryptionFailed => "Decryption failed",
            AuthError::PersistenceError => "Persistence failed",
        }
    }

    /// The text of [`AuthError::message`], as a sequence of characters.
    pub open spec fn spec_message(&self) -> Seq<char> {
        match self {
            AuthError::RandomnessError => "Failed to generate random bytes"@,
            AuthError::InvalidKeyLength => "Invalid master key length"@,
            AuthError::EncryptionFailed => "Encryption failed"@,
            AuthError::DecryptionFailed => "Decryption failed"@,
            AuthError::PersistenceError => "Persistence failed"@,
        }
    }
}

} // verus!
