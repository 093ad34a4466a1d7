//! Encryption of what is stored: the data key that encrypts every text and every amount, and
//! the keys derived from a password or a recovery phrase that wrap it.
use argon2::Argon2;
use base64::engine::general_purpose::STANDARD;
use base64::engine::general_purpose::URL_SAFE_NO_PAD;
use base64::Engine;
use bip39::Language;
use chacha20poly1305::aead::Aead;
use chacha20poly1305::KeyInit;
use chacha20poly1305::XChaCha20Poly1305;
use chacha20poly1305::XNonce;
use rand::RngCore;
use sha2::Digest;
use sha2::Sha256;
use vstd::prelude::*;
use vstd::slice::{slice_subrange, slice_to_vec};
use vstd::string::*;
use vstd::utf8::{
    decode_utf8, encode_utf8, encode_utf8_decode_utf8, encode_utf8_valid_utf8, valid_utf8,
};

use crate::text::{
    ascii_lower, bounded, chars_of, int_text, int_text_reads_back, int_to_text, is_white, nat_text,
    parse_i64, signed_value, split, split_parts, to_ascii_lower, white_space,
};

verus! {

pub const DEK_LEN: usize = 32;

pub const SALT_LEN: usize = 16;

pub const NONCE_LEN: usize = 24;

pub const MNEMONIC_ENTROPY_LEN: usize = 16;

/// One more than the number of bytes that can be encrypted at once.
pub const PLAINTEXT_END: u64 = 274877906817;

/// A data encryption key.
pub type Dek = [u8; 32];

/// Bytes from the operating system's random generator, through `OsRng.fill_bytes`. Nothing is
/// claimed of them.
#[verifier::external_body]
pub fn random_bytes<const N: usize>() -> (r: [u8; N]) {
    let mut bytes = [0u8; N];
    rand::rngs::OsRng.fill_bytes(&mut bytes);
    bytes
}

/// The 32 bytes that Argon2id derives from a secret and a salt.
pub uninterp spec fn argon2_key(secret: Seq<u8>, salt: Seq<u8>) -> Seq<u8>;

/// `Argon2::hash_password_into` with the default parameters and 32 bytes of output: a function
/// of the secret and the salt. It refuses a salt of fewer than eight bytes, and a secret or a
/// salt of more than `u32::MAX` bytes.
#[verifier::external_body]
fn argon2(secret: &[u8], salt: &[u8]) -> (r: Dek)
    requires
        8 <= salt@.len() <= 0xffff_ffff,
        secret@.len() <= 0xffff_ffff,
    ensures
        r@ == argon2_key(secret@, salt@),
{
    let mut key = [0u8; 32];
    Argon2::default().hash_password_into(secret, salt, &mut key).expect("argon2");
    key
}

/// The ciphertext, with its tag, that XChaCha20-Poly1305 makes of a plaintext.
pub uninterp spec fn sealed(key: Seq<u8>, nonce: Seq<u8>, plaintext: Seq<u8>) -> Seq<u8>;

/// The plaintext that XChaCha20-Poly1305 finds in a ciphertext, where its tag is right.
pub uninterp spec fn opened(key: Seq<u8>, nonce: Seq<u8>, ciphertext: Seq<u8>) -> Option<Seq<u8>>;

/// `XChaCha20Poly1305::encrypt`: a function of the key, the nonce and the plaintext, whose result
/// is sixteen bytes longer and decrypts to the plaintext under the same key and nonce. It panics
/// on keys and nonces of another length and on longer plaintexts, for which the key stream has no
/// block left.
#[verifier::external_body]
fn seal(key: &[u8], nonce: &[u8], plaintext: &[u8]) -> (r: Vec<u8>)
    requires
        key@.len() == DEK_LEN,
        nonce@.len() == NONCE_LEN,
        plaintext@.len() < PLAINTEXT_END,
    ensures
        r@ == sealed(key@, nonce@, plaintext@),
        r@.len() == plaintext@.len() + 16,
        opened(key@, nonce@, r@) == Some(plaintext@),
{
    XChaCha20Poly1305::new_from_slice(key)
        .expect("key length")
        .encrypt(XNonce::from_slice(nonce), plaintext)
        .expect("plaintext length")
}

/// `XChaCha20Poly1305::decrypt`: a function of the key, the nonce and the ciphertext; none where
/// the tag does not authenticate the ciphertext. What it finds makes the same ciphertext again, tag
/// and all, and it finds every plaintext that does: the tag is computed from the key, the nonce and
/// the ciphertext alone, and the key stream is added as it was before. It panics on keys and nonces
/// of another length and can panic on longer ciphertexts.
#[verifier::external_body]
fn open(key: &[u8], nonce: &[u8], ciphertext: &[u8]) -> (r: Option<Vec<u8>>)
    requires
        key@.len() == DEK_LEN,
        nonce@.len() == NONCE_LEN,
        ciphertext@.len() < PLAINTEXT_END + 16,
    ensures
        match r {
            Some(plaintext) => {
                &&& opened(key@, nonce@, ciphertext@) == Some(plaintext@)
                &&& sealed(key@, nonce@, plaintext@) == ciphertext@
                &&& ciphertext@.len() == plaintext@.len() + 16
                &&& forall|p: Seq<u8>|
                    p.len() < PLAINTEXT_END && #[trigger] sealed(key@, nonce@, p) == ciphertext@
                        ==> p == plaintext@
            },
            None => {
                &&& opened(key@, nonce@, ciphertext@) is None
                &&& forall|p: Seq<u8>|
                    p.len() < PLAINTEXT_END ==> #[trigger] sealed(key@, nonce@, p) != ciphertext@
            },
        },
{
    XChaCha20Poly1305::new_from_slice(key)
        .expect("key length")
        .decrypt(XNonce::from_slice(nonce), ciphertext)
        .ok()
}

/// Bytes in standard base64 with padding.
pub uninterp spec fn base64_text(bytes: Seq<u8>) -> Seq<char>;

/// The bytes that a text denotes in standard base64 with padding.
pub uninterp spec fn base64_bytes(text: Seq<char>) -> Option<Seq<u8>>;

/// `STANDARD.encode` of base64: a function of the bytes, whose result decodes to them. It takes
/// four characters for each three bytes begun.
#[verifier::external_body]
fn encode_base64(bytes: &[u8]) -> (r: String)
    requires
        bytes@.len() < PLAINTEXT_END + 1024,
    ensures
        r@ == base64_text(bytes@),
        r@.len() == (bytes@.len() + 2) / 3 * 4,
        base64_bytes(r@) == Some(bytes@),
{
    STANDARD.encode(bytes)
}

/// `STANDARD.decode` of base64: a function of the text; none where the text is malformed.
#[verifier::external_body]
fn decode_base64(text: &str) -> (r: Option<Vec<u8>>)
    ensures
        match r {
            Some(bytes) => base64_bytes(text@) == Some(bytes@),
            None => base64_bytes(text@) is None,
        },
{
    STANDARD.decode(text).ok()
}

/// `String::from_utf8` of the standard library: the text whose UTF-8 encoding the bytes are;
/// none where they are no UTF-8.
#[verifier::external_body]
pub(crate) fn from_utf8(bytes: Vec<u8>) -> (r: Option<String>)
    ensures
        match r {
            Some(text) => valid_utf8(bytes@) && text@ == decode_utf8(bytes@),
            None => !valid_utf8(bytes@),
        },
{
    String::from_utf8(bytes).ok()
}

/// Derives the key that wraps a data key from a secret and a salt.
pub fn derive_key(material: &[u8], salt: &[u8]) -> (r: Dek)
    requires
        8 <= salt@.len() <= 0xffff_ffff,
        material@.len() <= 0xffff_ffff,
    ensures
        r@ == argon2_key(material@, salt@),
{
    argon2(material, salt)
}

/// Derives the key that wraps a data key from a password and a salt.
pub fn derive_kek(password: &str, salt: &[u8]) -> (r: Dek)
    requires
        8 <= salt@.len() <= 0xffff_ffff,
        encode_utf8(password@).len() <= 0xffff_ffff,
    ensures
        r@ == argon2_key(encode_utf8(password@), salt@),
{
    argon2(password.as_bytes(), salt)
}

/// What a ciphertext decrypts to: nothing where it is longer than that of any plaintext.
pub open spec fn unsealed(key: Seq<u8>, nonce: Seq<u8>, ciphertext: Seq<u8>) -> Option<Seq<u8>> {
    if ciphertext.len() < PLAINTEXT_END + 16 {
        opened(key, nonce, ciphertext)
    } else {
        None
    }
}

fn unseal(key: &[u8], nonce: &[u8], ciphertext: &[u8]) -> (r: Option<Vec<u8>>)
    requires
        key@.len() == DEK_LEN,
        nonce@.len() == NONCE_LEN,
    ensures
        match r {
            Some(plaintext) => unsealed(key@, nonce@, ciphertext@) == Some(plaintext@),
            None => unsealed(key@, nonce@, ciphertext@) is None,
        },
        r matches Some(plaintext) ==> ciphertext@ == sealed(key@, nonce@, plaintext@)
            && ciphertext@.len() == plaintext@.len() + 16 && plaintext@.len() < PLAINTEXT_END,
        forall|p: Seq<u8>|
            p.len() < PLAINTEXT_END && ciphertext@.len() == p.len() + 16 && #[trigger] sealed(
                key@,
                nonce@,
                p,
            ) == ciphertext@ ==> (r matches Some(plaintext) && plaintext@ == p),
{
    if (ciphertext.len() as u64) < PLAINTEXT_END + 16 {
        open(key, nonce, ciphertext)
    } else {
        None
    }
}

/// Bytes that may be there, as a value.
pub open spec fn bytes_view(bytes: Option<Vec<u8>>) -> Option<Seq<u8>> {
    match bytes {
        Some(bytes) => Some(bytes@),
        None => None,
    }
}

/// What a stored text decrypts to under a key: the first bytes are the nonce, the rest is the
/// ciphertext.
pub open spec fn decrypted(key: Seq<u8>, encoded: Seq<char>) -> Option<Seq<u8>> {
    match base64_bytes(encoded) {
        Some(blob) => if blob.len() < NONCE_LEN {
            None
        } else {
            unsealed(key, blob.take(NONCE_LEN as int), blob.skip(NONCE_LEN as int))
        },
        None => None,
    }
}

/// The text that a stored text decrypts to, empty where it decrypts to none.
pub open spec fn plain(key: Seq<u8>, encoded: Seq<char>) -> Seq<char> {
    match decrypted(key, encoded) {
        Some(bytes) => if valid_utf8(bytes) {
            decode_utf8(bytes)
        } else {
            Seq::empty()
        },
        None => Seq::empty(),
    }
}

/// The amount that a stored text decrypts to, zero where it decrypts to none.
pub open spec fn cents(key: Seq<u8>, encoded: Seq<char>) -> int {
    match bounded(signed_value(plain(key, encoded)), i64::MIN as int, i64::MAX as int) {
        Some(n) => n,
        None => 0,
    }
}

/// A stored amount is in the range of amounts.
pub proof fn cents_fit(key: Seq<u8>, encoded: Seq<char>)
    ensures
        i64::MIN <= cents(key, encoded) <= i64::MAX,
{
}

/// A text short enough to be encrypted.
pub open spec fn sealable(s: Seq<char>) -> bool {
    encode_utf8(s).len() < PLAINTEXT_END
}

/// Whether a text is short enough to be encrypted.
pub fn is_sealable(s: &str) -> (r: bool)
    ensures
        r == sealable(s@),
{
    (s.as_bytes().len() as u64) < PLAINTEXT_END
}

/// A character takes at most four bytes.
pub proof fn utf8_length(s: Seq<char>)
    ensures
        encode_utf8(s).len() <= 4 * s.len(),
    decreases s.len(),
{
    if s.len() > 0 {
        utf8_length(s.drop_first());
    }
}

/// A text is what a plaintext is stored as under a key and a nonce: base64 of the nonce followed
/// by the ciphertext, which is sixteen bytes longer than the plaintext.
pub open spec fn encrypts(
    text: Seq<char>,
    key: Seq<u8>,
    nonce: Seq<u8>,
    plaintext: Seq<u8>,
) -> bool {
    let blob = nonce + sealed(key, nonce, plaintext);
    &&& nonce.len() == NONCE_LEN
    &&& text == base64_text(blob)
    &&& base64_bytes(text) == Some(blob)
    &&& blob.len() == NONCE_LEN + plaintext.len() + 16
}

/// Encrypts bytes under a nonce.
pub fn encrypt_under(key: &[u8], nonce: &[u8; 24], plaintext: &[u8]) -> (r: String)
    requires
        key@.len() == DEK_LEN,
        plaintext@.len() < PLAINTEXT_END,
    ensures
        encrypts(r@, key@, nonce@, plaintext@),
        decrypted(key@, r@) == Some(plaintext@),
        r@.len() > 0,
{
    let ciphertext: Vec<u8> = seal(key, nonce.as_slice(), plaintext);
    let mut blob: Vec<u8> = slice_to_vec(nonce.as_slice());
    let mut i: usize = 0;
    while i < ciphertext.len()
        invariant
            i <= ciphertext.len(),
            blob@ == nonce@ + ciphertext@.take(i as int),
        decreases ciphertext.len() - i,
    {
        proof {
            assert(ciphertext@.take(i + 1) =~= ciphertext@.take(i as int).push(
                ciphertext@[i as int],
            ));
        }
        blob.push(ciphertext[i]);
        i = i + 1;
    }
    proof {
        assert(ciphertext@.take(ciphertext@.len() as int) =~= ciphertext@);
        assert(blob@.take(NONCE_LEN as int) =~= nonce@);
        assert(blob@.skip(NONCE_LEN as int) =~= ciphertext@);
    }
    encode_base64(blob.as_slice())
}

/// Encrypts bytes under a fresh nonce.
pub fn encrypt(key: &[u8], plaintext: &[u8]) -> (r: String)
    requires
        key@.len() == DEK_LEN,
        plaintext@.len() < PLAINTEXT_END,
    ensures
        exists|nonce: Seq<u8>| #[trigger] encrypts(r@, key@, nonce, plaintext@),
        decrypted(key@, r@) == Some(plaintext@),
        r@.len() > 0,
{
    let nonce: [u8; 24] = random_bytes::<24>();
    encrypt_under(key, &nonce, plaintext)
}

/// Texts encrypted under different nonces differ, also where the plaintext is the same.
pub proof fn nonces_tell_texts_apart(
    a: Seq<char>,
    b: Seq<char>,
    key: Seq<u8>,
    nonces: (Seq<u8>, Seq<u8>),
    plaintexts: (Seq<u8>, Seq<u8>),
)
    requires
        encrypts(a, key, nonces.0, plaintexts.0),
        encrypts(b, key, nonces.1, plaintexts.1),
        nonces.0 != nonces.1,
    ensures
        a != b,
{
    if a == b {
        let blob = base64_bytes(a)->0;
        assert(blob.take(NONCE_LEN as int) =~= nonces.0);
        assert(blob.take(NONCE_LEN as int) =~= nonces.1);
    }
}

/// A text carries a plaintext for a key: it is the nonce followed by the ciphertext that the key
/// and the nonce make of the plaintext, in base64.
pub open spec fn carries(encoded: Seq<char>, key: Seq<u8>, plaintext: Seq<u8>) -> bool {
    match base64_bytes(encoded) {
        Some(blob) => {
            &&& blob.len() == NONCE_LEN + plaintext.len() + 16
            &&& plaintext.len() < PLAINTEXT_END
            &&& blob.skip(NONCE_LEN as int) == sealed(key, blob.take(NONCE_LEN as int), plaintext)
        },
        None => false,
    }
}

/// What comes of decrypting a text: the one plaintext that it carries for the key, and nothing
/// where it carries none.
pub open spec fn opens(r: Option<Seq<u8>>, key: Seq<u8>, encoded: Seq<char>) -> bool {
    &&& r == decrypted(key, encoded)
    &&& r is Some ==> carries(encoded, key, r->0)
    &&& forall|p: Seq<u8>| #[trigger] carries(encoded, key, p) ==> r == Some(p)
}

/// Decrypts what `encrypt` gave.
pub fn decrypt(key: &[u8], encoded: &str) -> (r: Option<Vec<u8>>)
    requires
        key@.len() == DEK_LEN,
    ensures
        opens(bytes_view(r), key@, encoded@),
{
    let blob = match decode_base64(encoded) {
        Some(blob) => blob,
        None => return None,
    };
    if blob.len() < NONCE_LEN {
        return None;
    }
    proof {
        assert(blob@.take(NONCE_LEN as int) =~= blob@.subrange(0, NONCE_LEN as int));
        assert(blob@.skip(NONCE_LEN as int) =~= blob@.subrange(
            NONCE_LEN as int,
            blob@.len() as int,
        ));
    }
    unseal(
        key,
        slice_subrange(blob.as_slice(), 0, NONCE_LEN),
        slice_subrange(blob.as_slice(), NONCE_LEN, blob.len()),
    )
}

/// A text opens under the key that it was encrypted with to what was encrypted; under another key
/// it opens to nothing, unless that key makes the same ciphertext of some plaintext under the same
/// nonce.
pub proof fn another_key_opens_nothing(
    encoded: Seq<char>,
    key: Seq<u8>,
    nonce: Seq<u8>,
    plaintext: Seq<u8>,
    other: Seq<u8>,
    r: Option<Seq<u8>>,
)
    requires
        plaintext.len() < PLAINTEXT_END,
        encrypts(encoded, key, nonce, plaintext),
        opens(r, other, encoded),
    ensures
        other == key ==> r == Some(plaintext),
        r is None <==> forall|p: Seq<u8>|
            p.len() == plaintext.len() ==> #[trigger] sealed(other, nonce, p) != sealed(
                key,
                nonce,
                plaintext,
            ),
        r matches Some(p) ==> p.len() == plaintext.len() && sealed(other, nonce, p) == sealed(
            key,
            nonce,
            plaintext,
        ),
{
    let blob = base64_bytes(encoded)->0;
    assert(blob.take(NONCE_LEN as int) =~= nonce);
    assert(blob.skip(NONCE_LEN as int) =~= sealed(key, nonce, plaintext));
    assert forall|p: Seq<u8>|
        p.len() == plaintext.len() && #[trigger] sealed(other, nonce, p) == sealed(
            key,
            nonce,
            plaintext,
        ) implies r == Some(p) by {
        assert(carries(encoded, other, p));
    }
    if r is Some {
        assert(carries(encoded, other, r->0));
    }
}

/// A text that was altered opens to nothing, unless it is itself a nonce and the ciphertext of some
/// plaintext; altered behind its nonce, it never opens to what was encrypted. What is no base64, or
/// too short for a nonce and a tag, opens to nothing.
pub proof fn altered_text_is_not_mistaken(
    encoded: Seq<char>,
    altered: Seq<char>,
    key: Seq<u8>,
    nonce: Seq<u8>,
    plaintext: Seq<u8>,
    r: Option<Seq<u8>>,
)
    requires
        encrypts(encoded, key, nonce, plaintext),
        base64_bytes(altered) != base64_bytes(encoded),
        opens(r, key, altered),
    ensures
        base64_bytes(altered) is None ==> r is None,
        base64_bytes(altered) matches Some(blob) ==> {
            &&& blob.len() < NONCE_LEN + 16 ==> r is None
            &&& blob.take(NONCE_LEN as int) == nonce ==> r != Some(plaintext)
            &&& r matches Some(p) ==> blob == blob.take(NONCE_LEN as int) + sealed(
                key,
                blob.take(NONCE_LEN as int),
                p,
            )
        },
{
    if let Some(blob) = base64_bytes(altered) {
        if r is Some {
            assert(carries(altered, key, r->0));
            assert(blob =~= blob.take(NONCE_LEN as int) + blob.skip(NONCE_LEN as int));
        }
    }
}

/// Wraps a data key under a key derived from a secret: the nonce and the ciphertext.
pub fn wrap_dek(dek: &Dek, kek: &[u8]) -> (r: (Vec<u8>, Vec<u8>))
    requires
        kek@.len() == DEK_LEN,
    ensures
        r.0@.len() == NONCE_LEN,
        r.1@ == sealed(kek@, r.0@, dek@),
        r.1@.len() == DEK_LEN + 16,
        unsealed(kek@, r.0@, r.1@) == Some(dek@),
{
    let nonce: [u8; 24] = random_bytes::<24>();
    let ciphertext: Vec<u8> = seal(kek, nonce.as_slice(), dek.as_slice());
    (slice_to_vec(nonce.as_slice()), ciphertext)
}

/// A data key has 32 bytes.
pub open spec fn as_key(bytes: Option<Seq<u8>>) -> Option<Seq<u8>> {
    match bytes {
        Some(b) => if b.len() == DEK_LEN {
            Some(b)
        } else {
            None
        },
        None => None,
    }
}

/// What comes of unwrapping: the one data key that the key derived from the secret makes the
/// ciphertext of, and nothing where there is none.
pub open spec fn unwraps(
    r: Option<Seq<u8>>,
    kek: Seq<u8>,
    nonce: Seq<u8>,
    ciphertext: Seq<u8>,
) -> bool {
    &&& r == as_key(unsealed(kek, nonce, ciphertext))
    &&& r is Some ==> r->0.len() == DEK_LEN && sealed(kek, nonce, r->0) == ciphertext
    &&& forall|dek: Seq<u8>|
        dek.len() == DEK_LEN && ciphertext.len() == DEK_LEN + 16 && #[trigger] sealed(
            kek,
            nonce,
            dek,
        ) == ciphertext ==> r == Some(dek)
}

/// A wrapped data key is unwrapped by the key that wraps it; by another key derived from a secret
/// it is not, unless that key makes the same ciphertext of some data key under the same nonce.
pub proof fn another_key_unwraps_nothing(
    nonce: Seq<u8>,
    ciphertext: Seq<u8>,
    dek: Seq<u8>,
    kek: Seq<u8>,
    other: Seq<u8>,
    r: Option<Seq<u8>>,
)
    requires
        dek.len() == DEK_LEN,
        ciphertext.len() == DEK_LEN + 16,
        ciphertext == sealed(kek, nonce, dek),
        unwraps(r, other, nonce, ciphertext),
    ensures
        other == kek ==> r == Some(dek),
        r is None <==> forall|d: Seq<u8>|
            d.len() == DEK_LEN ==> #[trigger] sealed(other, nonce, d) != sealed(kek, nonce, dek),
{
}

/// The first 32 bytes.
fn first_32(bytes: &Vec<u8>) -> (r: Dek)
    requires
        bytes@.len() >= 32,
    ensures
        r@ == bytes@.take(32),
{
    let mut key: [u8; 32] = [0u8; 32];
    let mut i: usize = 0;
    while i < 32
        invariant
            i <= 32,
            bytes@.len() >= 32,
            forall|j: int| 0 <= j < i ==> key@[j] == bytes@[j],
        decreases 32 - i,
    {
        key[i] = bytes[i];
        i = i + 1;
    }
    proof {
        assert(key@ =~= bytes@.take(32));
    }
    key
}

/// Unwraps a data key; none where the key derived from the secret is the wrong one.
pub fn unwrap_dek(nonce: &[u8], ciphertext: &[u8], kek: &[u8]) -> (r: Option<Dek>)
    requires
        kek@.len() == DEK_LEN,
        nonce@.len() == NONCE_LEN,
    ensures
        unwraps(
            match r {
                Some(dek) => Some(dek@),
                None => None,
            },
            kek@,
            nonce@,
            ciphertext@,
        ),
{
    match unseal(kek, nonce, ciphertext) {
        Some(raw) => if raw.len() == DEK_LEN {
            proof {
                assert(raw@.take(32) =~= raw@);
            }
            Some(first_32(&raw))
        } else {
            None
        },
        None => None,
    }
}

/// Decrypts a text; empty where it cannot be.
pub fn decrypt_string(dek: &Dek, encoded: &str) -> (r: String)
    ensures
        r@ == plain(dek@, encoded@),
{
    match decrypt(dek.as_slice(), encoded) {
        Some(bytes) => match from_utf8(bytes) {
            Some(text) => text,
            None => String::new(),
        },
        None => String::new(),
    }
}

/// Encrypts a text.
pub fn encrypt_string(dek: &Dek, text: &str) -> (r: String)
    requires
        sealable(text@),
    ensures
        plain(dek@, r@) == text@,
        r@.len() > 0,
{
    proof {
        encode_utf8_valid_utf8(text@);
        encode_utf8_decode_utf8(text@);
    }
    encrypt(dek.as_slice(), text.as_bytes())
}

/// The notation of an `i64` has at most twenty characters.
proof fn int_text_short(n: int)
    requires
        i64::MIN <= n <= i64::MAX,
    ensures
        int_text(n).len() <= 20,
{
    reveal_with_fuel(nat_text, 21);
}

/// Encrypts an amount in cents.
pub fn encrypt_cents(dek: &Dek, amount: i64) -> (r: String)
    ensures
        cents(dek@, r@) == amount,
        plain(dek@, r@) == int_text(amount as int),
        r@.len() > 0,
{
    let text = int_to_text(amount);
    proof {
        int_text_short(amount as int);
        utf8_length(text@);
        int_text_reads_back(amount as int);
    }
    encrypt_string(dek, &text)
}

/// Decrypts an amount in cents; zero where it cannot be.
pub fn decrypt_cents(dek: &Dek, encoded: &str) -> (r: i64)
    ensures
        r == cents(dek@, encoded@),
{
    match parse_i64(&decrypt_string(dek, encoded)) {
        Some(n) => n,
        None => 0,
    }
}

/// Bytes in base64 for URLs, without padding.
pub uninterp spec fn url_base64_text(bytes: Seq<u8>) -> Seq<char>;

/// The bytes that a text denotes in base64 for URLs, without padding.
pub uninterp spec fn url_base64_bytes(text: Seq<char>) -> Option<Seq<u8>>;

/// A character of base64 for URLs: a letter or a digit of ASCII, a hyphen or a low line.
pub open spec fn is_url_char(c: char) -> bool {
    ('A' <= c && c <= 'Z') || ('a' <= c && c <= 'z') || ('0' <= c && c <= '9') || c == '-' || c
        == '_'
}

/// `URL_SAFE_NO_PAD.encode` of base64: a function of the bytes, whose result decodes to them. It
/// takes four characters for each three bytes, and one more than there are bytes for the rest.
#[verifier::external_body]
pub(crate) fn encode_url_base64(bytes: &[u8]) -> (r: String)
    requires
        bytes@.len() <= 0xffff,
    ensures
        r@ == url_base64_text(bytes@),
        r@.len() == bytes@.len() / 3 * 4 + (if bytes@.len() % 3 == 0 {
            0
        } else {
            bytes@.len() % 3 + 1
        }),
        forall|i: int| 0 <= i < r@.len() ==> is_url_char(#[trigger] r@[i]),
        url_base64_bytes(r@) == Some(bytes@),
{
    URL_SAFE_NO_PAD.encode(bytes)
}

/// `URL_SAFE_NO_PAD.decode` of base64: a function of the text; none where the text is malformed.
#[verifier::external_body]
pub(crate) fn decode_url_base64(text: &str) -> (r: Option<Vec<u8>>)
    ensures
        match r {
            Some(bytes) => url_base64_bytes(text@) == Some(bytes@),
            None => url_base64_bytes(text@) is None,
        },
{
    URL_SAFE_NO_PAD.decode(text).ok()
}

/// The SHA-256 digest of bytes.
pub uninterp spec fn sha256(bytes: Seq<u8>) -> Seq<u8>;

/// `Sha256::digest`: 32 bytes that are a function of the bytes.
#[verifier::external_body]
pub(crate) fn digest_bytes(bytes: &[u8]) -> (r: Vec<u8>)
    ensures
        r@ == sha256(bytes@),
        r@.len() == 32,
{
    Sha256::digest(bytes).to_vec()
}

/// A recovery phrase: the English words of a mnemonic, with one space between them.
pub struct Mnemonic {
    pub phrase: String,
}

/// The words that encode an entropy.
pub uninterp spec fn entropy_phrase(entropy: Seq<u8>) -> Seq<char>;

/// The words of the mnemonic that a phrase spells, with one space between them, where the phrase
/// spells one.
pub uninterp spec fn mnemonic_words(phrase: Seq<char>) -> Option<Seq<char>>;

/// The 64 bytes that a mnemonic and a passphrase give as a seed, where the phrase spells one.
pub uninterp spec fn mnemonic_seed(phrase: Seq<char>, passphrase: Seq<char>) -> Option<Seq<u8>>;

/// `bip39::Mnemonic::from_entropy_in` for English: twelve words for sixteen bytes, a function of
/// them, which spell a mnemonic. They are in ASCII lower case with one space between them.
#[verifier::external_body]
fn encode_entropy(entropy: &[u8]) -> (r: String)
    requires
        entropy@.len() == MNEMONIC_ENTROPY_LEN,
    ensures
        r@ == entropy_phrase(entropy@),
        mnemonic_words(r@) == Some(r@),
        split_parts(r@, ' ').len() == 12,
        tidy_phrase(r@) == r@,
{
    bip39::Mnemonic::from_entropy_in(Language::English, entropy).expect("entropy").to_string()
}

/// `bip39::Mnemonic::parse_in_normalized` for English: the words that a phrase spells, a function
/// of it; none where it has a wrong number of words, an unknown word or a wrong checksum. The
/// words that come back spell themselves.
#[verifier::external_body]
fn parse_phrase(phrase: &str) -> (r: Option<String>)
    ensures
        match r {
            Some(words) => mnemonic_words(phrase@) == Some(words@) && mnemonic_words(words@)
                == Some(words@),
            None => mnemonic_words(phrase@) is None,
        },
{
    bip39::Mnemonic::parse_in_normalized(Language::English, phrase).ok().map(|m| m.to_string())
}

/// `bip39::Mnemonic::to_seed_normalized`: 64 bytes that are a function of the words and the
/// passphrase.
#[verifier::external_body]
fn seed_of(phrase: &str, passphrase: &str) -> (r: Option<Vec<u8>>)
    ensures
        match r {
            Some(seed) => mnemonic_seed(phrase@, passphrase@) == Some(seed@) && seed@.len() == 64,
            None => mnemonic_seed(phrase@, passphrase@) is None,
        },
        r is Some <==> mnemonic_words(phrase@) is Some,
{
    bip39::Mnemonic::parse_in_normalized(Language::English, phrase)
        .ok()
        .map(|m| m.to_seed_normalized(passphrase).to_vec())
}

/// A phrase in ASCII lower case with one space between its words and none around them.
pub open spec fn tidy_phrase(s: Seq<char>) -> Seq<char>
    decreases s.len(),
{
    if s.len() == 0 {
        Seq::empty()
    } else {
        let front = tidy_phrase(s.drop_last());
        if white_space(s.last()) {
            front
        } else if s.len() > 1 && white_space(s[s.len() - 2]) && front.len() > 0 {
            front.push(' ').push(ascii_lower(s.last()))
        } else {
            front.push(ascii_lower(s.last()))
        }
    }
}

/// Writes a phrase in ASCII lower case with one space between its words.
fn tidy(phrase: &str) -> (r: String)
    ensures
        r@ == tidy_phrase(phrase@),
{
    let chars = chars_of(phrase);
    let mut tidied = String::new();
    let mut some = false;
    let mut i: usize = 0;
    proof {
        assert(phrase@.take(0) =~= Seq::<char>::empty());
    }
    while i < chars.len()
        invariant
            i <= chars.len(),
            chars@ == phrase@,
            tidied@ == tidy_phrase(phrase@.take(i as int)),
            some == (tidied@.len() > 0),
        decreases chars.len() - i,
    {
        let c: char = chars[i];
        proof {
            assert(phrase@.take(i + 1).drop_last() =~= phrase@.take(i as int));
        }
        if !is_white(c) {
            if i > 0 && is_white(chars[i - 1]) && some {
                tidied.push(' ');
            }
            tidied.push(to_ascii_lower(c));
            some = true;
        }
        i = i + 1;
    }
    proof {
        assert(phrase@.take(phrase@.len() as int) =~= phrase@);
    }
    tidied
}

/// The recovery phrase that a text gives, where it spells a mnemonic of twelve words.
pub open spec fn recovery_phrase(s: Seq<char>) -> Option<Seq<char>> {
    match mnemonic_words(tidy_phrase(s)) {
        Some(words) => if split_parts(words, ' ').len() == 12 {
            Some(words)
        } else {
            None
        },
        None => None,
    }
}

/// Makes a recovery phrase of twelve words from 128 random bits.
pub fn generate_recovery_mnemonic() -> (r: Mnemonic)
    ensures
        exists|entropy: Seq<u8>|
            entropy.len() == MNEMONIC_ENTROPY_LEN && r.phrase@ == #[trigger] entropy_phrase(
                entropy,
            ),
        mnemonic_words(r.phrase@) == Some(r.phrase@),
        recovery_phrase(r.phrase@) == Some(r.phrase@),
{
    let entropy: [u8; 16] = random_bytes::<16>();
    Mnemonic { phrase: encode_entropy(entropy.as_slice()) }
}

/// Reads a recovery phrase of twelve words, whatever the white space and the case.
pub fn parse_recovery_mnemonic(phrase: &str) -> (r: Option<Mnemonic>)
    ensures
        match r {
            Some(m) => recovery_phrase(phrase@) == Some(m.phrase@) && mnemonic_words(m.phrase@)
                == Some(m.phrase@),
            None => recovery_phrase(phrase@) is None,
        },
{
    match parse_phrase(&tidy(phrase)) {
        Some(words) => if split(&words, ' ').len() == 12 {
            Some(Mnemonic { phrase: words })
        } else {
            None
        },
        None => None,
    }
}

/// The key that a recovery phrase wraps the data key with: the first half of its seed.
pub open spec fn recovery_key(phrase: Seq<char>) -> Option<Seq<u8>> {
    match mnemonic_seed(phrase, "haruka recovery key v1"@) {
        Some(seed) => Some(seed.take(DEK_LEN as int)),
        None => None,
    }
}

/// Derives the key that a recovery phrase wraps the data key with; none where the phrase spells
/// no mnemonic.
pub fn derive_recovery_kek(mnemonic: &Mnemonic) -> (r: Option<Dek>)
    ensures
        match r {
            Some(kek) => recovery_key(mnemonic.phrase@) == Some(kek@),
            None => recovery_key(mnemonic.phrase@) is None,
        },
        r is Some <==> mnemonic_words(mnemonic.phrase@) is Some,
{
    match seed_of(&mnemonic.phrase, "haruka recovery key v1") {
        Some(seed) => Some(first_32(&seed)),
        None => None,
    }
}

} // verus!
