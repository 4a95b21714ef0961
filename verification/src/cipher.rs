//! The envelope cipher: a token is sealed under the master key with
//! AES-256-GCM, its salt bound as associated data, and stored as base64.
//!
//! The nonce is the same for every sealing. That is sound only while no two
//! tokens are sealed under the same key with the same salt.

use crate::encoding::{
    base64_decoded, base64_encoded, bytes_of, decode, encode, lemma_base64_round_trip,
    max_encodable_len, string_from_utf8,
};
use crate::error::AuthError;
use crate::master_key::MasterKey;
use vstd::prelude::*;
use vstd::utf8::*;

verus! {

/// The number of bytes of the nonce of AES-256-GCM.
pub const NONCE_LENGTH: usize = 12;

/// What AES-256-GCM gives when it seals `plaintext` under `key` and `nonce`
/// with `aad` as associated data: the ciphertext followed by its tag, or
/// `None` where the cipher refuses.
pub uninterp spec fn aes_256_gcm_sealed(
    key: Seq<u8>,
    nonce: Seq<u8>,
    aad: Seq<u8>,
    plaintext: Seq<u8>,
) -> Option<Seq<u8>>;

/// What AES-256-GCM gives when it opens `sealed` under `key` and `nonce` with
/// `aad` as associated data: the plaintext, or `None` where the tag does not
/// verify or the cipher refuses.
pub uninterp spec fn aes_256_gcm_opened(
    key: Seq<u8>,
    nonce: Seq<u8>,
    aad: Seq<u8>,
    sealed: Seq<u8>,
) -> Option<Seq<u8>>;

/// Calls `LessSafeKey::seal_in_place_append_tag` of the `ring` crate, on a
/// key that `UnboundKey::new` makes from `key` for `AES_256_GCM` and a nonce
/// that `Nonce::try_assume_unique_for_key` makes from `nonce`. Trusted: the
/// result is the cipher's output for these four byte strings, `None` where
/// any of the three calls reports an error, and opening that output under the
/// same key, nonce and associated data gives the plaintext back.
#[verifier::external_body]
pub(crate) fn aes_256_gcm_seal(key: &[u8], nonce: &[u8], aad: &[u8], plaintext: &[u8]) -> (sealed:
    Option<Vec<u8>>)
    ensures
        bytes_of(sealed) == aes_256_gcm_sealed(key@, nonce@, aad@, plaintext@),
        sealed is Some ==> aes_256_gcm_opened(key@, nonce@, aad@, sealed.unwrap()@) == Some(
            plaintext@,
        ),
{
    let unbound = ring::aead::UnboundKey::new(&ring::aead::AES_256_GCM, key).ok()?;
    let nonce = ring::aead::Nonce::try_assume_unique_for_key(nonce).ok()?;
    let mut in_out = plaintext.to_vec();
    ring::aead::LessSafeKey::new(unbound).seal_in_place_append_tag(
        nonce,
        ring::aead::Aad::from(aad),
        &mut in_out,
    ).ok()?;
    Some(in_out)
}

/// Calls `LessSafeKey::open_in_place` of the `ring` crate, on a key and a
/// nonce made as in [`aes_256_gcm_seal`]. Trusted: the result is the
/// cipher's output for these four byte strings, `None` where any of the three
/// calls reports an error.
#[verifier::external_body]
pub(crate) fn aes_256_gcm_open(key: &[u8], nonce: &[u8], aad: &[u8], sealed: &[u8]) -> (opened:
    Option<Vec<u8>>)
    ensures
        bytes_of(opened) == aes_256_gcm_opened(key@, nonce@, aad@, sealed@),
{
    let unbound = ring::aead::UnboundKey::new(&ring::aead::AES_256_GCM, key).ok()?;
    let nonce = ring::aead::Nonce::try_assume_unique_for_key(nonce).ok()?;
    let mut in_out = sealed.to_vec();
    let plaintext = ring::aead::LessSafeKey::new(unbound).open_in_place(
        nonce,
        ring::aead::Aad::from(aad),
        &mut in_out,
    ).ok()?;
    Some(plaintext.to_vec())
}

/// The nonce of every sealing: twelve zero bytes.
pub open spec fn fixed_nonce() -> Seq<u8> {
    Seq::new(NONCE_LENGTH as nat, |i: int| 0u8)
}

/// The stored text for what the cipher returned on sealing: its base64
/// encoding, or nothing where the cipher refused or the output is too long
/// to encode.
pub open spec fn ciphertext_of(sealed: Option<Seq<u8>>) -> Option<Seq<char>> {
    match sealed {
        Some(bytes) => if bytes.len() <= max_encodable_len() {
            Some(base64_encoded(bytes))
        } else {
            None
        },
        None => None,
    }
}

/// The token for what the cipher returned on opening: its decoding from
/// UTF-8, or nothing where the cipher refused or the bytes are no UTF-8.
pub open spec fn plaintext_of(opened: Option<Seq<u8>>) -> Option<Seq<char>> {
    match opened {
        Some(bytes) => if valid_utf8(bytes) {
            Some(decode_utf8(bytes))
        } else {
            None
        },
        None => None,
    }
}

/// The stored text of `plaintext` sealed under `key` and bound to `salt`.
pub open spec fn sealed(key: Seq<u8>, plaintext: Seq<char>, salt: Seq<u8>) -> Option<Seq<char>> {
    ciphertext_of(aes_256_gcm_sealed(key, fixed_nonce(), salt, encode_utf8(plaintext)))
}

/// The token that the stored text `ciphertext` holds under `key` and `salt`.
pub open spec fn opened(key: Seq<u8>, ciphertext: Seq<char>, salt: Seq<u8>) -> Option<Seq<char>> {
    match base64_decoded(ciphertext) {
        Some(bytes) => plaintext_of(aes_256_gcm_opened(key, fixed_nonce(), salt, bytes)),
        None => None,
    }
}

fn nonce() -> (bytes: Vec<u8>)
    ensures
        bytes@ == fixed_nonce(),
{
    let mut bytes: Vec<u8> = Vec::new();
    while bytes.len() < NONCE_LENGTH
        invariant
            bytes@.len() <= NONCE_LENGTH,
            forall|i: int| 0 <= i < bytes@.len() ==> bytes@[i] == 0u8,
        decreases NONCE_LENGTH - bytes@.len(),
    {
        bytes.push(0u8);
    }
    assert(bytes@ =~= fixed_nonce());
    bytes
}

/// Turns the cipher's answer to a sealing into the text to store.
pub fn ciphertext_from_sealed(sealed: Option<Vec<u8>>) -> (stored: Result<String, AuthError>)
    ensures
        match ciphertext_of(bytes_of(sealed)) {
            Some(text) => stored is Ok && stored.unwrap()@ == text,
            None => stored == Err::<String, AuthError>(AuthError::EncryptionFailed),
        },
        stored is Ok ==> base64_decoded(stored.unwrap()@) == bytes_of(sealed),
{
    match sealed {
        None => Err(AuthError::EncryptionFailed),
        Some(bytes) => {
            if bytes.len() > (isize::MAX as usize) / 2 {
                return Err(AuthError::EncryptionFailed);
            }
            proof {
                lemma_base64_round_trip(bytes@);
            }
            Ok(encode(bytes.as_slice()))
        },
    }
}

/// Turns the cipher's answer to an opening into the token.
pub fn plaintext_from_opened(opened: Option<Vec<u8>>) -> (token: Result<String, AuthError>)
    ensures
        match plaintext_of(bytes_of(opened)) {
            Some(text) => token is Ok && token.unwrap()@ == text,
            None => token == Err::<String, AuthError>(AuthError::DecryptionFailed),
        },
{
    match opened {
        None => Err(AuthError::DecryptionFailed),
        Some(bytes) => match string_from_utf8(bytes) {
            Some(text) => Ok(text),
            None => Err(AuthError::DecryptionFailed),
        },
    }
}

/// Seals `plaintext` under `key`, bound to `salt`, and returns the text to
/// store. Opening that text under the same key and salt gives `plaintext`
/// back.
pub fn seal(key: &MasterKey, plaintext: &str, salt: &[u8]) -> (stored: Result<String, AuthError>)
    ensures
        match sealed(key@, plaintext@, salt@) {
            Some(text) => stored is Ok && stored.unwrap()@ == text,
            None => stored == Err::<String, AuthError>(AuthError::EncryptionFailed),
        },
        stored is Ok ==> opened(key@, stored.unwrap()@, salt@) == Some(plaintext@),
{
    let nonce = nonce();
    let sealed = aes_256_gcm_seal(key.as_bytes(), nonce.as_slice(), salt, plaintext.as_bytes());
    let stored = ciphertext_from_sealed(sealed);
    proof {
        encode_utf8_valid_utf8(plaintext@);
        encode_utf8_decode_utf8(plaintext@);
    }
    stored
}

/// Opens the stored text `ciphertext` under `key` and `salt`. Fails with
/// `DecryptionFailed` where the text is no base64, where the tag does not
/// verify under this key and salt, and where what comes out is no UTF-8.
pub fn open(key: &MasterKey, ciphertext: &str, salt: &[u8]) -> (token: Result<String, AuthError>)
    ensures
        match opened(key@, ciphertext@, salt@) {
            Some(text) => token is Ok && token.unwrap()@ == text,
            None => token == Err::<String, AuthError>(AuthError::DecryptionFailed),
        },
{
    match decode(ciphertext) {
        None => Err(AuthError::DecryptionFailed),
        Some(bytes) => {
            let nonce = nonce();
            plaintext_from_opened(
                aes_256_gcm_open(key.as_bytes(), nonce.as_slice(), salt, bytes.as_slice()),
            )
        },
    }
}

} // verus!
