//! Text and its encodings: base64 without padding, as records and the master
//! key are stored, UTF-8 between tokens and the bytes that are sealed, and
//! the trimming of a persisted text.

use base64::Engine;
use vstd::prelude::*;
use vstd::utf8::*;

verus! {

/// The bytes held by an optional buffer.
pub open spec fn bytes_of(buffer: Option<Vec<u8>>) -> Option<Seq<u8>> {
    match buffer {
        Some(bytes) => Some(bytes@),
        None => None,
    }
}

/// Whether `c` belongs to the standard base64 alphabet.
pub open spec fn is_base64_char(c: char) -> bool {
    ('A' <= c && c <= 'Z') || ('a' <= c && c <= 'z') || ('0' <= c && c <= '9') || c == '+' || c
        == '/'
}

/// The character of the standard base64 alphabet that stands for a six-bit
/// value.
pub open spec fn base64_char(sextet: u8) -> char {
    if sextet < 26 {
        (sextet + 65) as char
    } else if sextet < 52 {
        (sextet + 71) as char
    } else if sextet < 62 {
        (sextet - 4) as char
    } else if sextet == 62 {
        '+'
    } else {
        '/'
    }
}

/// The base64 text of `bytes` in the standard alphabet, without padding:
/// every three bytes give four characters of six bits each, and one or two
/// bytes left at the end give two or three.
pub open spec fn base64_encoded(bytes: Seq<u8>) -> Seq<char>
    decreases bytes.len(),
{
    if bytes.len() == 0 {
        Seq::empty()
    } else if bytes.len() == 1 {
        seq![base64_char(bytes[0] >> 2), base64_char((bytes[0] & 0x03) << 4)]
    } else if bytes.len() == 2 {
        seq![
            base64_char(bytes[0] >> 2),
            base64_char(((bytes[0] & 0x03) << 4) | (bytes[1] >> 4)),
            base64_char((bytes[1] & 0x0f) << 2),
        ]
    } else {
        seq![
            base64_char(bytes[0] >> 2),
            base64_char(((bytes[0] & 0x03) << 4) | (bytes[1] >> 4)),
            base64_char(((bytes[1] & 0x0f) << 2) | (bytes[2] >> 6)),
            base64_char(bytes[2] & 0x3f),
        ] + base64_encoded(bytes.skip(3))
    }
}

/// The bytes whose base64 text is `text`, if there are any.
pub open spec fn base64_decoded(text: Seq<char>) -> Option<Seq<u8>> {
    if exists|bytes: Seq<u8>| base64_encoded(bytes) == text {
        Some(choose|bytes: Seq<u8>| base64_encoded(bytes) == text)
    } else {
        None
    }
}

/// Every group of six bits that the encoding takes from three bytes is a
/// six-bit value.
proof fn lemma_sextets(a: u8, b: u8, c: u8)
    ensures
        a >> 2 < 64,
        (a & 0x03) << 4 < 64,
        ((a & 0x03) << 4) | (b >> 4) < 64,
        (b & 0x0f) << 2 < 64,
        ((b & 0x0f) << 2) | (c >> 6) < 64,
        c & 0x3f < 64,
{
    assert(a >> 2 < 64) by (bit_vector);
    assert((a & 0x03) << 4 < 64) by (bit_vector);
    assert(((a & 0x03) << 4) | (b >> 4) < 64) by (bit_vector);
    assert((b & 0x0f) << 2 < 64) by (bit_vector);
    assert(((b & 0x0f) << 2) | (c >> 6) < 64) by (bit_vector);
    assert(c & 0x3f < 64) by (bit_vector);
}

/// A six-bit value gives a character of the alphabet, and different values
/// give different characters.
proof fn lemma_char_of_sextet(a: u8, b: u8)
    requires
        a < 64,
        b < 64,
    ensures
        is_base64_char(base64_char(a)),
        base64_char(a) == base64_char(b) ==> a == b,
{
}

/// The length of the base64 text of `n` bytes.
pub open spec fn base64_len(n: nat) -> nat {
    4 * (n / 3) + if n % 3 == 0 {
        0nat
    } else {
        (n % 3 + 1) as nat
    }
}

/// The text of `n` bytes has `base64_len(n)` characters, all of the
/// alphabet.
pub proof fn lemma_base64_text(bytes: Seq<u8>)
    ensures
        base64_encoded(bytes).len() == base64_len(bytes.len()),
        forall|i: int|
            0 <= i < base64_encoded(bytes).len() ==> is_base64_char(
                #[trigger] base64_encoded(bytes)[i],
            ),
    decreases bytes.len(),
{
    if bytes.len() == 0 {
    } else if bytes.len() == 1 {
        lemma_sextets(bytes[0], 0, 0);
        lemma_char_of_sextet(bytes[0] >> 2, 0);
        lemma_char_of_sextet((bytes[0] & 0x03) << 4, 0);
    } else if bytes.len() == 2 {
        lemma_sextets(bytes[0], bytes[1], 0);
        lemma_char_of_sextet(bytes[0] >> 2, 0);
        lemma_char_of_sextet(((bytes[0] & 0x03) << 4) | (bytes[1] >> 4), 0);
        lemma_char_of_sextet((bytes[1] & 0x0f) << 2, 0);
    } else {
        lemma_base64_text(bytes.skip(3));
        lemma_sextets(bytes[0], bytes[1], bytes[2]);
        lemma_char_of_sextet(bytes[0] >> 2, 0);
        lemma_char_of_sextet(((bytes[0] & 0x03) << 4) | (bytes[1] >> 4), 0);
        lemma_char_of_sextet(((bytes[1] & 0x0f) << 2) | (bytes[2] >> 6), 0);
        lemma_char_of_sextet(bytes[2] & 0x3f, 0);
    }
}

/// One, two or three bytes are determined by the groups of six bits that
/// the encoding takes from them.
proof fn lemma_bytes_of_sextets(a0: u8, a1: u8, a2: u8, b0: u8, b1: u8, b2: u8)
    ensures
        a0 >> 2 == b0 >> 2 && (a0 & 0x03) << 4 == (b0 & 0x03) << 4 ==> a0 == b0,
        a0 >> 2 == b0 >> 2 && ((a0 & 0x03) << 4) | (a1 >> 4) == ((b0 & 0x03) << 4) | (b1 >> 4) && (
        a1 & 0x0f) << 2 == (b1 & 0x0f) << 2 ==> a0 == b0 && a1 == b1,
        a0 >> 2 == b0 >> 2 && ((a0 & 0x03) << 4) | (a1 >> 4) == ((b0 & 0x03) << 4) | (b1 >> 4) && ((
        a1 & 0x0f) << 2) | (a2 >> 6) == ((b1 & 0x0f) << 2) | (b2 >> 6) && a2 & 0x3f == b2 & 0x3f
            ==> a0 == b0 && a1 == b1 && a2 == b2,
{
    assert(a0 >> 2 == b0 >> 2 && (a0 & 0x03) << 4 == (b0 & 0x03) << 4 ==> a0 == b0)
        by (bit_vector);
    assert(a0 >> 2 == b0 >> 2 && ((a0 & 0x03) << 4) | (a1 >> 4) == ((b0 & 0x03) << 4) | (b1 >> 4)
        && (a1 & 0x0f) << 2 == (b1 & 0x0f) << 2 ==> a0 == b0 && a1 == b1) by (bit_vector);
    assert(a0 >> 2 == b0 >> 2 && ((a0 & 0x03) << 4) | (a1 >> 4) == ((b0 & 0x03) << 4) | (b1 >> 4)
        && ((a1 & 0x0f) << 2) | (a2 >> 6) == ((b1 & 0x0f) << 2) | (b2 >> 6) && a2 & 0x3f == b2
        & 0x3f ==> a0 == b0 && a1 == b1 && a2 == b2) by (bit_vector);
}

/// Different bytes have different base64 texts.
pub proof fn lemma_base64_injective(a: Seq<u8>, b: Seq<u8>)
    requires
        base64_encoded(a) == base64_encoded(b),
    ensures
        a == b,
    decreases a.len(),
{
    lemma_base64_text(a);
    lemma_base64_text(b);
    assert(a.len() == b.len());
    if a.len() == 0 {
        assert(a =~= b);
    } else if a.len() == 1 {
        let (ea, eb) = (base64_encoded(a), base64_encoded(b));
        lemma_sextets(a[0], 0, 0);
        lemma_sextets(b[0], 0, 0);
        assert(ea[0] == eb[0] && ea[1] == eb[1]);
        lemma_char_of_sextet(a[0] >> 2, b[0] >> 2);
        lemma_char_of_sextet((a[0] & 0x03) << 4, (b[0] & 0x03) << 4);
        lemma_bytes_of_sextets(a[0], 0, 0, b[0], 0, 0);
        assert(a =~= b);
    } else if a.len() == 2 {
        let (ea, eb) = (base64_encoded(a), base64_encoded(b));
        lemma_sextets(a[0], a[1], 0);
        lemma_sextets(b[0], b[1], 0);
        assert(ea[0] == eb[0] && ea[1] == eb[1] && ea[2] == eb[2]);
        lemma_char_of_sextet(a[0] >> 2, b[0] >> 2);
        lemma_char_of_sextet(
            ((a[0] & 0x03) << 4) | (a[1] >> 4),
            ((b[0] & 0x03) << 4) | (b[1] >> 4),
        );
        lemma_char_of_sextet((a[1] & 0x0f) << 2, (b[1] & 0x0f) << 2);
        lemma_bytes_of_sextets(a[0], a[1], 0, b[0], b[1], 0);
        assert(a =~= b);
    } else {
        let (ea, eb) = (base64_encoded(a), base64_encoded(b));
        lemma_sextets(a[0], a[1], a[2]);
        lemma_sextets(b[0], b[1], b[2]);
        assert(ea[0] == eb[0] && ea[1] == eb[1] && ea[2] == eb[2] && ea[3] == eb[3]);
        lemma_char_of_sextet(a[0] >> 2, b[0] >> 2);
        lemma_char_of_sextet(
            ((a[0] & 0x03) << 4) | (a[1] >> 4),
            ((b[0] & 0x03) << 4) | (b[1] >> 4),
        );
        lemma_char_of_sextet(
            ((a[1] & 0x0f) << 2) | (a[2] >> 6),
            ((b[1] & 0x0f) << 2) | (b[2] >> 6),
        );
        lemma_char_of_sextet(a[2] & 0x3f, b[2] & 0x3f);
        lemma_bytes_of_sextets(a[0], a[1], a[2], b[0], b[1], b[2]);
        assert(ea.skip(4) =~= base64_encoded(a.skip(3)));
        assert(eb.skip(4) =~= base64_encoded(b.skip(3)));
        lemma_base64_injective(a.skip(3), b.skip(3));
        assert forall|i: int| 0 <= i < a.len() implies a[i] == b[i] by {
            if i >= 3 {
                assert(a.skip(3)[i - 3] == b.skip(3)[i - 3]);
            }
        }
        assert(a =~= b);
    }
}

/// Decoding undoes encoding.
pub proof fn lemma_base64_round_trip(bytes: Seq<u8>)
    ensures
        base64_decoded(base64_encoded(bytes)) == Some(bytes),
{
    let text = base64_encoded(bytes);
    let found = choose|found: Seq<u8>| base64_encoded(found) == text;
    lemma_base64_injective(found, bytes);
}

/// The longest input, in bytes, that [`encode`] accepts: its text then still
/// fits a `String`.
pub open spec fn max_encodable_len() -> int {
    isize::MAX as int / 2
}

/// Calls `Engine::encode` of the `base64` crate on its `STANDARD_NO_PAD`
/// engine. Trusted: the text is the unpadded base64 text of `bytes` in the
/// standard alphabet. Longer inputs are left out because the crate panics
/// once the size of the text cannot be computed or allocated.
#[verifier::external_body]
pub(crate) fn encode(bytes: &[u8]) -> (text: String)
    requires
        bytes@.len() <= max_encodable_len(),
    ensures
        text@ == base64_encoded(bytes@),
{
    base64::engine::general_purpose::STANDARD_NO_PAD.encode(bytes)
}

/// Calls `Engine::decode` of the `base64` crate on its `STANDARD_NO_PAD`
/// engine. Trusted: the engine accepts exactly the texts that are the
/// unpadded base64 text of some bytes, and returns those bytes. Padding, a
/// character outside the alphabet, a length that no text has and unused bits
/// that are not zero all make it report a `DecodeError`, which is `None`
/// here.
#[verifier::external_body]
pub(crate) fn decode(text: &str) -> (bytes: Option<Vec<u8>>)
    ensures
        bytes_of(bytes) == base64_decoded(text@),
{
    base64::engine::general_purpose::STANDARD_NO_PAD.decode(text).ok()
}

/// Calls `String::from_utf8`. Trusted: it yields a string exactly when the
/// bytes are valid UTF-8, and the string is then their decoding.
#[verifier::external_body]
pub(crate) fn string_from_utf8(bytes: Vec<u8>) -> (text: Option<String>)
    ensures
        text is Some <==> valid_utf8(bytes@),
        text is Some ==> text.unwrap()@ == decode_utf8(bytes@),
{
    String::from_utf8(bytes).ok()
}

/// Whether two texts hold the same characters.
pub fn same_text(a: &str, b: &str) -> (same: bool)
    ensures
        same == (a@ == b@),
{
    a.to_owned() == b.to_owned()
}

/// Calls `String::push`. Trusted: the text grows by the one character at
/// its end.
#[verifier::external_body]
pub(crate) fn push_char(text: &mut String, c: char)
    ensures
        final(text)@ == old(text)@.push(c),
{
    text.push(c)
}

/// Whether `c` is white space to `str::trim`: a character with the Unicode
/// property `White_Space`.
pub open spec fn is_whitespace(c: char) -> bool {
    let n = c as u32;
    (0x09 <= n && n <= 0x0d) || n == 0x20 || n == 0x85 || n == 0xa0 || n == 0x1680 || (0x2000 <= n
        && n <= 0x200a) || n == 0x2028 || n == 0x2029 || n == 0x202f || n == 0x205f || n == 0x3000
}

/// `text` without its leading white space.
pub open spec fn trimmed_start(text: Seq<char>) -> Seq<char>
    decreases text.len(),
{
    if text.len() > 0 && is_whitespace(text.first()) {
        trimmed_start(text.drop_first())
    } else {
        text
    }
}

/// `text` without its trailing white space.
pub open spec fn trimmed_end(text: Seq<char>) -> Seq<char>
    decreases text.len(),
{
    if text.len() > 0 && is_whitespace(text.last()) {
        trimmed_end(text.drop_last())
    } else {
        text
    }
}

/// `text` without its leading and trailing white space.
pub open spec fn trimmed(text: Seq<char>) -> Seq<char> {
    trimmed_end(trimmed_start(text))
}

/// Calls `str::trim`. Trusted: the slice is `text` with the white space at
/// both ends removed, white space being the characters of
/// [`is_whitespace`].
#[verifier::external_body]
pub(crate) fn trim(text: &str) -> (inner: &str)
    ensures
        inner@ == trimmed(text@),
{
    text.trim()
}

/// Text that neither starts nor ends with white space is its own trimming.
pub proof fn lemma_trimmed_is_identity(text: Seq<char>)
    requires
        text.len() > 0 ==> !is_whitespace(text.first()) && !is_whitespace(text.last()),
    ensures
        trimmed(text) == text,
{
}

/// A base64 text survives trimming: no character of the alphabet is white
/// space.
pub proof fn lemma_base64_text_is_trimmed(bytes: Seq<u8>)
    ensures
        trimmed(base64_encoded(bytes)) == base64_encoded(bytes),
{
    let text = base64_encoded(bytes);
    lemma_base64_text(bytes);
    if text.len() > 0 {
        assert(is_base64_char(text[0]));
        assert(is_base64_char(text[text.len() - 1]));
    }
    lemma_trimmed_is_identity(text);
}

} // verus!
