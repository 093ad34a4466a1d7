//! Random tokens that open what is shared by a link.
use vstd::prelude::*;
use vstd::string::*;
use vstd::utf8::encode_utf8;

use crate::crypto::{
    decode_url_base64, digest_bytes, encode_url_base64, is_url_char, random_bytes, sha256, url_base64_bytes,
    url_base64_text,
};

verus! {

/// How many bytes a token has.
pub const TOKEN_LEN: usize = 32;

/// How many characters the text of a token has.
pub const TOKEN_TEXT_LEN: usize = 43;

/// The bytes of the token that a text denotes.
pub open spec fn token_of(text: Seq<char>) -> Option<Seq<u8>> {
    if encode_utf8(text).len() != TOKEN_TEXT_LEN {
        None
    } else {
        match url_base64_bytes(text) {
            Some(bytes) => if bytes.len() == TOKEN_LEN {
                Some(bytes)
            } else {
                None
            },
            None => None,
        }
    }
}

/// Reads a token.
pub fn decode_token(text: &str) -> (r: Option<Vec<u8>>)
    ensures
        match r {
            Some(bytes) => token_of(text@) == Some(bytes@),
            None => token_of(text@) is None,
        },
{
    if text.as_bytes().len() != TOKEN_TEXT_LEN {
        return None;
    }
    match decode_url_base64(text) {
        Some(bytes) => if bytes.len() == TOKEN_LEN {
            Some(bytes)
        } else {
            None
        },
        None => None,
    }
}

/// The digest by which a token is found.
pub fn token_hash(token: &[u8]) -> (r: Vec<u8>)
    ensures
        r@ == sha256(token@),
        r@.len() == 32,
{
    digest_bytes(token)
}

/// A fresh token, as bytes and as the text that denotes it.
pub fn new_token() -> (r: ([u8; 32], String))
    ensures
        r.1@ == url_base64_text(r.0@),
        token_of(r.1@) == Some(r.0@),
        r.1@.len() == TOKEN_TEXT_LEN,
        forall|i: int| 0 <= i < r.1@.len() ==> is_url_char(#[trigger] r.1@[i]),
{
    let bytes: [u8; 32] = random_bytes::<32>();
    let text = encode_url_base64(bytes.as_slice());
    proof {
        assert(vstd::utf8::is_ascii_chars(text@)) by {
            assert forall|i: int| 0 <= i < text@.len() implies 0 <= #[trigger] text@[i] < 128 by {
                assert(is_url_char(text@[i]));
            }
        }
        vstd::utf8::is_ascii_chars_encode_utf8(text@);
    }
    (bytes, text)
}

/// Whether two byte strings are equal.
pub fn same_bytes(a: &Vec<u8>, b: &Vec<u8>) -> (r: bool)
    ensures
        r == (a@ == b@),
{
    if a.len() != b.len() {
        return false;
    }
    let mut i: usize = 0;
    while i < a.len()
        invariant
            i <= a.len(),
            a@.len() == b@.len(),
            forall|j: int| 0 <= j < i ==> a@[j] == b@[j],
        decreases a.len() - i,
    {
        if a[i] != b[i] {
            return false;
        }
        i = i + 1;
    }
    proof {
        assert(a@ =~= b@);
    }
    true
}

} // verus!
