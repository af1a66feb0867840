//! Tokens: how they are generated, and the form in which they are stored.
//!
//! A token is stored as the standard Base64 encoding of the SHA-512 digest of
//! its UTF-8 bytes. Tokens are random, so no salt and no slow hash is needed.

use vstd::prelude::*;
use vstd::utf8::encode_utf8;
use sha2::{Digest, Sha512};

verus! {

/// The SHA-512 digest of `data` (FIPS 180-4).
pub uninterp spec fn sha512_digest(data: Seq<u8>) -> Seq<u8>;

/// The character of the standard Base64 alphabet (RFC 4648, table 1) for the
/// six-bit value `v`.
pub open spec fn base64_char(v: int) -> char {
    if v < 26 {
        (65 + v) as char
    } else if v < 52 {
        (97 + v - 26) as char
    } else if v < 62 {
        (48 + v - 52) as char
    } else if v == 62 {
        '+'
    } else {
        '/'
    }
}

/// Standard Base64 (RFC 4648, section 4) of `data`, padded with `=`: each
/// group of three bytes becomes four characters, and a final group of one or
/// two bytes becomes two or three characters followed by `==` or `=`.
pub open spec fn base64_encode(data: Seq<u8>) -> Seq<char>
    decreases data.len(),
{
    if data.len() == 0 {
        Seq::<char>::empty()
    } else if data.len() == 1 {
        let b0 = data[0] as int;
        seq![base64_char(b0 / 4), base64_char((b0 % 4) * 16), '=', '=']
    } else if data.len() == 2 {
        let b0 = data[0] as int;
        let b1 = data[1] as int;
        seq![base64_char(b0 / 4), base64_char((b0 % 4) * 16 + b1 / 16), base64_char((b1 % 16) * 4), '=']
    } else {
        let b0 = data[0] as int;
        let b1 = data[1] as int;
        let b2 = data[2] as int;
        seq![
            base64_char(b0 / 4),
            base64_char((b0 % 4) * 16 + b1 / 16),
            base64_char((b1 % 16) * 4 + b2 / 64),
            base64_char(b2 % 64),
        ] + base64_encode(data.skip(3))
    }
}

/// The form in which a token is kept in the user file: Base64 of the SHA-512
/// digest of the token's UTF-8 bytes.
pub open spec fn spec_storable_token(token: Seq<char>) -> Seq<char> {
    base64_encode(sha512_digest(encode_utf8(token)))
}

/// The text of a version 4 UUID as `uuid` displays it: 32 lower-case hex
/// digits in groups of 8-4-4-4-12 separated by `-`, with the version digit `4`
/// and a variant digit among `8`, `9`, `a`, `b`.
pub open spec fn is_uuid_v4_text(s: Seq<char>) -> bool {
    &&& s.len() == 36
    &&& forall|i: int|
        0 <= i < 36 ==> if i == 8 || i == 13 || i == 18 || i == 23 {
            s[i] == '-'
        } else {
            ('0' <= s[i] <= '9') || ('a' <= s[i] <= 'f')
        }
    &&& s[14] == '4'
    &&& (s[19] == '8' || s[19] == '9' || s[19] == 'a' || s[19] == 'b')
}

/// A character of the standard Base64 alphabet, or the padding `=`.
pub open spec fn is_base64_symbol(c: char) -> bool {
    ||| ('A' <= c <= 'Z')
    ||| ('a' <= c <= 'z')
    ||| ('0' <= c <= '9')
    ||| c == '+'
    ||| c == '/'
    ||| c == '='
}

/// Each six-bit value maps to a character of the alphabet.
pub proof fn lemma_base64_char(v: int)
    requires
        0 <= v < 64,
    ensures
        is_base64_symbol(base64_char(v)),
{
    if v < 26 {
        assert(((65 + v) as char) as int == 65 + v);
    } else if v < 52 {
        assert(((97 + v - 26) as char) as int == 97 + v - 26);
    } else if v < 62 {
        assert(((48 + v - 52) as char) as int == 48 + v - 52);
    }
}

/// Every character of a Base64 text is in the alphabet or is the padding `=`.
pub proof fn lemma_base64_alphabet(data: Seq<u8>)
    ensures
        forall|i: int|
            0 <= i < base64_encode(data).len() ==> is_base64_symbol(
                #[trigger] base64_encode(data)[i],
            ),
    decreases data.len(),
{
    if data.len() == 0 {
    } else if data.len() == 1 {
        let b0 = data[0] as int;
        lemma_base64_char(b0 / 4);
        lemma_base64_char((b0 % 4) * 16);
    } else if data.len() == 2 {
        let b0 = data[0] as int;
        let b1 = data[1] as int;
        lemma_base64_char(b0 / 4);
        lemma_base64_char((b0 % 4) * 16 + b1 / 16);
        lemma_base64_char((b1 % 16) * 4);
    } else {
        lemma_base64_alphabet(data.skip(3));
        let b0 = data[0] as int;
        let b1 = data[1] as int;
        let b2 = data[2] as int;
        lemma_base64_char(b0 / 4);
        lemma_base64_char((b0 % 4) * 16 + b1 / 16);
        lemma_base64_char((b1 % 16) * 4 + b2 / 64);
        lemma_base64_char(b2 % 64);
        let head = seq![
            base64_char(b0 / 4),
            base64_char((b0 % 4) * 16 + b1 / 16),
            base64_char((b1 % 16) * 4 + b2 / 64),
            base64_char(b2 % 64),
        ];
        let rest = base64_encode(data.skip(3));
        assert(base64_encode(data) == head + rest);
        assert forall|i: int|
            0 <= i < base64_encode(data).len() implies is_base64_symbol(
                #[trigger] base64_encode(data)[i],
            ) by {
            if i >= 4 {
                assert(base64_encode(data)[i] == rest[i - 4]);
            }
        }
    }
}

/// The length of a Base64 text, and its padding: four characters for each
/// started group of three bytes, ending in `==` after one leftover byte and in
/// `=` after two.
pub proof fn lemma_base64_length(data: Seq<u8>)
    ensures
        base64_encode(data).len() == (data.len() + 2) / 3 * 4,
        data.len() % 3 == 1 ==> base64_encode(data)[base64_encode(data).len() - 2] == '='
            && base64_encode(data)[base64_encode(data).len() - 1] == '=',
        data.len() % 3 == 2 ==> base64_encode(data)[base64_encode(data).len() - 1] == '=',
    decreases data.len(),
{
    if data.len() >= 3 {
        let rest = data.skip(3);
        lemma_base64_length(rest);
        let out = base64_encode(data);
        let tail = base64_encode(rest);
        assert(out.len() == 4 + tail.len());
        if data.len() % 3 != 0 {
            assert(rest.len() % 3 == data.len() % 3);
            assert(out[out.len() - 1] == tail[tail.len() - 1]);
            assert(out[out.len() - 2] == tail[tail.len() - 2]);
        }
    }
}

/// SHA-512 of `data` through `sha2::Sha512::digest`. The digest is named, not
/// restated; the one fact stated beside it is its fixed length of 64 bytes.
#[verifier::external_body]
fn sha512(data: &[u8]) -> (res: Vec<u8>)
    ensures
        res@ == sha512_digest(data@),
        res@.len() == 64,
{
    Sha512::digest(data).to_vec()
}

/// Standard padded Base64 through `base64::encode`, which panics only when
/// the length of the output would overflow `usize`.
#[verifier::external_body]
fn base64_standard(data: &[u8]) -> (res: String)
    requires
        (data@.len() + 2) / 3 * 4 <= usize::MAX,
    ensures
        res@ == base64_encode(data@),
{
    base64::encode(data)
}

/// The text of a fresh random UUID through `uuid::Uuid::new_v4` and its
/// `Display`. Which UUID comes out is left open: only its shape is stated.
#[verifier::external_body]
fn uuid_v4_text() -> (res: String)
    ensures
        is_uuid_v4_text(res@),
{
    uuid::Uuid::new_v4().to_string()
}

/// A fresh random token for a new user.
pub fn get_token() -> (res: String)
    ensures
        is_uuid_v4_text(res@),
{
    uuid_v4_text()
}

/// The form in which `token` is kept in the user file.
pub fn storable_token(token: &str) -> (res: String)
    ensures
        res@ == spec_storable_token(token@),
        res@.len() == 88,
        res@[86] == '=',
        res@[87] == '=',
{
    let bytes = token.as_bytes();
    let digest = sha512(bytes);
    proof {
        lemma_base64_length(digest@);
    }
    base64_standard(digest.as_slice())
}

} // verus!
