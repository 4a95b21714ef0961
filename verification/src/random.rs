//! Sources of randomness: the system's secure generator for keys and salts,
//! and the generator that draws the characters of a token.

use ring::rand::SecureRandom;
use vstd::prelude::*;

verus! {

/// Whether `c` is one of `A`-`Z`, `a`-`z`, `0`-`9`.
pub open spec fn is_alphanumeric(c: char) -> bool {
    ('A' <= c && c <= 'Z') || ('a' <= c && c <= 'z') || ('0' <= c && c <= '9')
}

/// Calls `SecureRandom::fill` of the `ring` crate on a fresh `SystemRandom`,
/// over a buffer of `len` bytes. Trusted: where the generator delivers, the
/// result holds exactly `len` bytes; `None` where it reports a failure.
/// Nothing is claimed of the bytes themselves. Lengths that no buffer can
/// have are left out.
#[verifier::external_body]
pub(crate) fn secure_random_bytes(len: usize) -> (bytes: Option<Vec<u8>>)
    requires
        len <= isize::MAX,
    ensures
        bytes is Some ==> bytes.unwrap()@.len() == len,
{
    let mut buffer = vec![0u8; len];
    ring::rand::SystemRandom::new().fill(&mut buffer).ok()?;
    Some(buffer)
}

/// Calls `fastrand::alphanumeric`. Trusted: the character is a letter or a
/// digit of ASCII, as the crate documents; which one is left open.
#[verifier::external_body]
pub(crate) fn random_alphanumeric() -> (c: char)
    ensures
        is_alphanumeric(c),
{
    fastrand::alphanumeric()
}

} // verus!
