//! The master key: one 32-byte secret, created on first use and read back
//! from its persisted base64 text ever after.

use crate::encoding::{
    base64_decoded, base64_encoded, decode, encode, lemma_base64_round_trip,
    lemma_base64_text_is_trimmed, trim, trimmed,
};
use crate::error::AuthError;
use crate::random::secure_random_bytes;
use vstd::prelude::*;

verus! {

/// The number of bytes of a master key, the key size of AES-256.
pub const MASTER_KEY_LENGTH: usize = 32;

/// The symmetric secret under which every token is sealed.
pub struct MasterKey {
    bytes: Vec<u8>,
}

impl View for MasterKey {
    type V = Seq<u8>;

    closed spec fn view(&self) -> Seq<u8> {
        self.bytes@
    }
}

/// The key bytes that a persisted text stands for: its trimmed text decoded
/// from base64, provided that gives exactly 32 bytes.
pub open spec fn persisted_key(text: Seq<char>) -> Option<Seq<u8>> {
    match base64_decoded(trimmed(text)) {
        Some(bytes) => if bytes.len() == MASTER_KEY_LENGTH {
            Some(bytes)
        } else {
            None
        },
        None => None,
    }
}

impl MasterKey {
    #[verifier::type_invariant]
    spec fn has_key_length(self) -> bool {
        self.bytes@.len() == MASTER_KEY_LENGTH
    }

    /// Takes `bytes` as a key if there are exactly 32 of them.
    pub fn from_bytes(bytes: Vec<u8>) -> (made: Result<MasterKey, AuthError>)
        ensures
            match made {
                Ok(key) => bytes@.len() == MASTER_KEY_LENGTH && key@ == bytes@,
                Err(e) => bytes@.len() != MASTER_KEY_LENGTH && e == AuthError::InvalidKeyLength,
            },
    {
        if bytes.len() != MASTER_KEY_LENGTH {
            return Err(AuthError::InvalidKeyLength);
        }
        Ok(MasterKey { bytes })
    }

    /// The key for what the secure random source returned: `None` is a
    /// failure of the source, and anything but 32 bytes is no key.
    pub fn from_random(drawn: Option<Vec<u8>>) -> (made: Result<MasterKey, AuthError>)
        ensures
            match drawn {
                None => made == Err::<MasterKey, AuthError>(AuthError::RandomnessError),
                Some(bytes) => match made {
                    Ok(key) => bytes@.len() == MASTER_KEY_LENGTH && key@ == bytes@,
                    Err(e) => bytes@.len() != MASTER_KEY_LENGTH && e
                        == AuthError::InvalidKeyLength,
                },
            },
    {
        match drawn {
            None => Err(AuthError::RandomnessError),
            Some(bytes) => MasterKey::from_bytes(bytes),
        }
    }

    /// Draws a fresh key from the secure random source. Whether the source
    /// delivers is not in this function's hands: it fails with
    /// `RandomnessError` exactly when the source does.
    pub fn generate() -> (made: Result<MasterKey, AuthError>)
        ensures
            match made {
                Ok(key) => key@.len() == MASTER_KEY_LENGTH,
                Err(e) => e == AuthError::RandomnessError,
            },
    {
        MasterKey::from_random(secure_random_bytes(MASTER_KEY_LENGTH))
    }

    /// Reads a key from its persisted text: white space around the text is
    /// dropped, the rest is base64 and must decode to 32 bytes. Any other
    /// text is reported as `InvalidKeyLength`.
    pub fn decode(text: &str) -> (made: Result<MasterKey, AuthError>)
        ensures
            match persisted_key(text@) {
                Some(bytes) => made is Ok && made.unwrap()@ == bytes,
                None => made == Err::<MasterKey, AuthError>(AuthError::InvalidKeyLength),
            },
    {
        match decode(trim(text)) {
            None => Err(AuthError::InvalidKeyLength),
            Some(bytes) => MasterKey::from_bytes(bytes),
        }
    }

    /// The text under which this key is persisted. Reading it back with
    /// [`MasterKey::decode`] gives this key again.
    pub fn encode(&self) -> (text: String)
        ensures
            text@ == base64_encoded(self@),
            persisted_key(text@) == Some(self@),
    {
        proof {
            use_type_invariant(self);
        }
        let text = encode(self.bytes.as_slice());
        proof {
            lemma_base64_text_is_trimmed(self@);
            lemma_base64_round_trip(self@);
        }
        text
    }

    /// The 32 bytes of the key.
    pub fn as_bytes(&self) -> (bytes: &[u8])
        ensures
            bytes@ == self@,
            bytes@.len() == MASTER_KEY_LENGTH,
    {
        proof {
            use_type_invariant(self);
        }
        self.bytes.as_slice()
    }
}

/// A freshly drawn key that waits to be persisted. The key is handed out
/// only once its text has been written.
pub struct PendingKey {
    key: MasterKey,
    encoded: String,
}

impl PendingKey {
    #[verifier::type_invariant]
    spec fn encoded_is_of_key(self) -> bool {
        self.encoded@ == base64_encoded(self.key@) && persisted_key(self.encoded@) == Some(
            self.key@,
        )
    }

    /// The bytes of the key that waits.
    pub closed spec fn key(&self) -> Seq<u8> {
        self.key@
    }

    /// The text to persist.
    pub closed spec fn text(&self) -> Seq<char> {
        self.encoded@
    }

    /// The text to persist. Read back, it gives the key that waits.
    pub fn encoded(&self) -> (text: &str)
        ensures
            text@ == self.text(),
            text@ == base64_encoded(self.key()),
            persisted_key(text@) == Some(self.key()),
    {
        proof {
            use_type_invariant(self);
        }
        self.encoded.as_str()
    }

    /// Hands out the key if its text was written, and fails with
    /// `PersistenceError` if it was not: a key that is not durable must not
    /// seal anything.
    pub fn persisted(self, written: bool) -> (released: Result<MasterKey, AuthError>)
        ensures
            match released {
                Ok(key) => written && key@ == self.key(),
                Err(e) => !written && e == AuthError::PersistenceError,
            },
    {
        if written {
            Ok(self.key)
        } else {
            Err(AuthError::PersistenceError)
        }
    }
}

/// The master key of a deployment, or what is left to do to have one.
pub enum KeySource {
    /// The key was read from its persisted text.
    Loaded(MasterKey),
    /// No key was persisted: this one was drawn and has to be persisted
    /// before it is used.
    Created(PendingKey),
}

/// The master key of a deployment, given what is persisted of it.
///
/// With a persisted text, the key is read from it. Without one, a fresh key
/// is drawn, and it comes as a [`PendingKey`]: once its text is persisted,
/// every later call finds it and returns the same key.
pub fn get_or_create_master_key(persisted: Option<&str>) -> (outcome: Result<KeySource, AuthError>)
    ensures
        match persisted {
            Some(text) => match persisted_key(text@) {
                Some(bytes) => outcome matches Ok(KeySource::Loaded(key)) && key@ == bytes,
                None => outcome matches Err(e) && e == AuthError::InvalidKeyLength,
            },
            None => match outcome {
                Ok(KeySource::Created(pending)) => persisted_key(pending.text()) == Some(
                    pending.key(),
                ),
                Ok(KeySource::Loaded(_)) => false,
                Err(e) => e == AuthError::RandomnessError,
            },
        },
{
    match persisted {
        Some(text) => {
            let key = MasterKey::decode(text)?;
            Ok(KeySource::Loaded(key))
        },
        None => {
            let key = MasterKey::generate()?;
            let encoded = key.encode();
            Ok(KeySource::Created(PendingKey { key, encoded }))
        },
    }
}

} // verus!
