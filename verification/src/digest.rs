//! Digests: SHA-256, HMAC-SHA256 and hexadecimal, over bytes.

use hmac::{Hmac, KeyInit, Mac};
use sha2::{Digest, Sha256};
use vstd::prelude::*;
use vstd::utf8::encode_utf8;

verus! {

/// The UTF-8 bytes of a text.
pub open spec fn utf8(s: Seq<char>) -> Seq<u8> {
    encode_utf8(s)
}

/// The SHA-256 digest of a message.
pub uninterp spec fn sha256(message: Seq<u8>) -> Seq<u8>;

/// The HMAC-SHA256 of a message under a key.
pub uninterp spec fn hmac_sha256(key: Seq<u8>, message: Seq<u8>) -> Seq<u8>;

/// `sha2::Sha256::digest`: the digest depends on the message alone and has
/// 32 bytes.
#[verifier::external_body]
pub(crate) fn sha256_of(message: &[u8]) -> (r: Vec<u8>)
    ensures
        r@ == sha256(message@),
        r@.len() == 32,
{
    Sha256::digest(message).to_vec()
}

/// `hmac::Hmac::<Sha256>`, keyed with `key` and fed `message`: the code
/// depends on the two alone and has 32 bytes. Keys of any length are taken.
#[verifier::external_body]
pub(crate) fn hmac_of(key: &[u8], message: &[u8]) -> (r: Vec<u8>)
    ensures
        r@ == hmac_sha256(key@, message@),
        r@.len() == 32,
{
    let mut mac = Hmac::<Sha256>::new_from_slice(key).expect("HMAC accepts any key length");
    mac.update(message);
    mac.finalize().into_bytes().to_vec()
}

/// `Mac::verify_slice` on `hmac::Hmac::<Sha256>`: whether `code` is, byte for
/// byte and in full length, the message's code under the key.
#[verifier::external_body]
pub(crate) fn hmac_matches(key: &[u8], message: &[u8], code: &[u8]) -> (r: bool)
    ensures
        r == (hmac_sha256(key@, message@) == code@),
{
    let mut mac = Hmac::<Sha256>::new_from_slice(key).expect("HMAC accepts any key length");
    mac.update(message);
    mac.verify_slice(code).is_ok()
}

// --- hexadecimal ---

/// Bytes in lower-case hexadecimal, two digits each.
pub open spec fn hex_of(bytes: Seq<u8>) -> Seq<char> {
    Seq::new(
        2 * bytes.len(),
        |i: int|
            crate::text::hex_char(
                if i % 2 == 0 {
                    bytes[i / 2] as int / 16
                } else {
                    bytes[i / 2] as int % 16
                },
            ),
    )
}

pub open spec fn is_hex(c: char) -> bool {
    ||| '0' <= c <= '9'
    ||| 'a' <= c <= 'f'
    ||| 'A' <= c <= 'F'
}

pub open spec fn hex_value(c: char) -> int {
    if '0' <= c <= '9' {
        c as int - 48
    } else if 'a' <= c <= 'f' {
        c as int - 87
    } else {
        c as int - 55
    }
}

/// The bytes a hexadecimal text stands for: an even number of digits in
/// either case, and nothing else.
pub open spec fn unhex(s: Seq<char>) -> Option<Seq<u8>> {
    if s.len() % 2 == 0 && forall|i: int| 0 <= i < s.len() ==> is_hex(#[trigger] s[i]) {
        Some(
            Seq::new(
                s.len() / 2,
                |i: int| (16 * hex_value(s[2 * i]) + hex_value(s[2 * i + 1])) as u8,
            ),
        )
    } else {
        None
    }
}

/// `hex::encode`: two lower-case digits for each byte, the high one first.
#[verifier::external_body]
pub(crate) fn hex_encode(bytes: &[u8]) -> (r: String)
    ensures
        r@ == hex_of(bytes@),
{
    hex::encode(bytes)
}

/// `hex::decode`: the bytes of an even number of hexadecimal digits, in upper
/// or lower case; any other text is refused.
#[verifier::external_body]
pub(crate) fn hex_decode(text: &str) -> (r: Option<Vec<u8>>)
    ensures
        match r {
            Some(bytes) => unhex(text@) == Some(bytes@),
            None => unhex(text@) is None,
        },
{
    hex::decode(text).ok()
}

/// Decoding what was encoded gives the bytes back.
pub proof fn hex_round_trip(bytes: Seq<u8>)
    ensures
        unhex(hex_of(bytes)) == Some(bytes),
{
    let s = hex_of(bytes);
    assert forall|i: int| 0 <= i < s.len() implies is_hex(#[trigger] s[i]) by {
        let b = bytes[i / 2];
        assert(0 <= b as int / 16 < 16 && 0 <= b as int % 16 < 16);
    }
    let back = unhex(s)->0;
    assert(back =~= bytes) by {
        assert forall|i: int| 0 <= i < bytes.len() implies back[i] == bytes[i] by {
            let b = bytes[i];
            assert((2 * i) / 2 == i && (2 * i) % 2 == 0);
            assert((2 * i + 1) / 2 == i && (2 * i + 1) % 2 == 1);
            assert(hex_value(s[2 * i]) == b as int / 16);
            assert(hex_value(s[2 * i + 1]) == b as int % 16);
        }
    }
}

/// Hexadecimal text holds digits and lower-case letters only.
pub proof fn lemma_hex_chars(bytes: Seq<u8>)
    ensures
        forall|i: int|
            0 <= i < hex_of(bytes).len() ==> ('0' <= #[trigger] hex_of(bytes)[i] <= '9' || 'a'
                <= hex_of(bytes)[i] <= 'f'),
{
    let s = hex_of(bytes);
    assert forall|i: int| 0 <= i < s.len() implies ('0' <= #[trigger] s[i] <= '9' || 'a' <= s[i]
        <= 'f') by {
        let b = bytes[i / 2];
        assert(0 <= b as int / 16 < 16 && 0 <= b as int % 16 < 16);
    }
}

/// The text under which a bearer token is kept: the hexadecimal SHA-256 of
/// its bytes.
pub open spec fn token_hash_of(token: Seq<char>) -> Seq<char> {
    hex_of(sha256(utf8(token)))
}

/// The hexadecimal SHA-256 of a token, which is all that is kept of it.
pub fn token_hash(token: &str) -> (r: String)
    ensures
        r@ == token_hash_of(token@),
{
    hex_encode(sha256_of(token.as_bytes()).as_slice())
}

/// Whether two tokens have the same SHA-256 digest: the digests are compared,
/// never the tokens.
pub fn token_matches(token: &str, expected: &str) -> (r: bool)
    ensures
        r == (sha256(utf8(token@)) == sha256(utf8(expected@))),
{
    let a = sha256_of(token.as_bytes());
    let b = sha256_of(expected.as_bytes());
    same_bytes(&a, &b)
}

/// Whether two byte strings are the same.
pub fn same_bytes(a: &Vec<u8>, b: &Vec<u8>) -> (r: bool)
    ensures
        r == (a@ == b@),
{
    if a.len() != b.len() {
        return false;
    }
    let mut i: usize = 0;
    while i < a.len()
        invariant
            a@.len() == b@.len(),
            i <= a@.len(),
            forall|j: int| 0 <= j < i ==> a@[j] == b@[j],
        decreases a@.len() - i,
    {
        if a[i] != b[i] {
            return false;
        }
        i += 1;
    }
    assert(a@ =~= b@);
    true
}

/// A token is kept by the SHA-256 digest of its bytes, in hexadecimal, and not
/// as itself.
pub proof fn tokens_are_kept_by_their_digest(token: Seq<char>)
    ensures
        unhex(token_hash_of(token)) == Some(sha256(utf8(token))),
{
    hex_round_trip(sha256(utf8(token)));
}

/// Hexadecimal digits are the ten decimal ones and six letters in either case, and
/// each stands for its value; bytes are written with their high digit first.
pub proof fn hexadecimal_digits_have_their_value(c: char, bytes: Seq<u8>, i: int)
    requires
        0 <= i < bytes.len(),
    ensures
        is_hex(c) <==> 48 <= c as int <= 57 || 65 <= c as int <= 70 || 97 <= c as int <= 102,
        48 <= c as int <= 57 ==> hex_value(c) == c as int - 48,
        97 <= c as int <= 102 ==> hex_value(c) == c as int - 97 + 10,
        65 <= c as int <= 70 ==> hex_value(c) == c as int - 65 + 10,
        hex_of(bytes).len() == 2 * bytes.len(),
        16 * hex_value(hex_of(bytes)[2 * i]) + hex_value(hex_of(bytes)[2 * i + 1]) == bytes[i],
        forall|k: int|
            0 <= k < hex_of(bytes).len() ==> !(65 <= #[trigger] hex_of(bytes)[k] as int <= 70),
{
    lemma_hex_chars(bytes);
    let b = bytes[i] as int;
    assert((2 * i) / 2 == i && (2 * i) % 2 == 0);
    assert((2 * i + 1) / 2 == i && (2 * i + 1) % 2 == 1);
    assert(0 <= b / 16 < 16 && 0 <= b % 16 < 16);
    assert forall|k: int| 0 <= k < hex_of(bytes).len() implies !(65
        <= #[trigger] hex_of(bytes)[k] as int <= 70) by {
        let x = bytes[k / 2] as int;
        assert(0 <= x / 16 < 16 && 0 <= x % 16 < 16);
    }
}

/// A text stands for bytes exactly where it has an even number of hexadecimal
/// digits and nothing else, one byte for each two.
pub proof fn texts_stand_for_bytes_in_pairs(s: Seq<char>, i: int)
    ensures
        unhex(s) is Some <==> s.len() % 2 == 0 && forall|k: int|
            0 <= k < s.len() ==> is_hex(#[trigger] s[k]),
        unhex(s) matches Some(bytes) ==> bytes.len() == s.len() / 2,
        (unhex(s) is Some && 0 <= i < s.len() / 2) ==> unhex(s)->0[i] == 16 * hex_value(s[2 * i])
            + hex_value(s[2 * i + 1]),
{
    if unhex(s) is Some && 0 <= i < s.len() / 2 {
        assert(is_hex(s[2 * i]) && is_hex(s[2 * i + 1]));
    }
}

} // verus!
