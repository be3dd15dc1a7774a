//! The cryptographic and encoding primitives the vault relies on, called in their crates.
use vstd::prelude::*;

use aes_gcm::aead::{Aead, KeyInit, OsRng};
use aes_gcm::{AeadCore, Aes256Gcm, Nonce};
use base64::Engine;
use rand::RngCore;
use vstd::utf8::{decode_utf8, valid_utf8};

verus! {

/// The ciphertext (with its tag) that AES-256-GCM gives for a key, a 12-byte nonce and a plaintext.
pub uninterp spec fn spec_aes_gcm_encrypt(key: Seq<u8>, nonce: Seq<u8>, plaintext: Seq<u8>) -> Seq<u8>;

/// The plaintext that AES-256-GCM recovers from a ciphertext, or `None` when the tag does not verify.
pub uninterp spec fn spec_aes_gcm_decrypt(key: Seq<u8>, nonce: Seq<u8>, ciphertext: Seq<u8>) -> Option<
    Seq<u8>,
>;

/// A digit of the standard Base64 alphabet: `A`-`Z`, `a`-`z`, `0`-`9`, `+`, `/`.
pub open spec fn base64_digit(i: int) -> char {
    if i < 26 {
        (i + 65) as char
    } else if i < 52 {
        (i - 26 + 97) as char
    } else if i < 62 {
        (i - 52 + 48) as char
    } else if i == 62 {
        '+'
    } else {
        '/'
    }
}

/// The standard Base64 encoding with padding: each group of three bytes as four digits of six
/// bits each; a last group of two bytes as three digits and `=`, of one byte as two digits and
/// `==`.
pub open spec fn base64_text(bs: Seq<u8>) -> Seq<char>
    decreases bs.len(),
{
    if bs.len() == 0 {
        Seq::empty()
    } else {
        let b0 = bs[0] as int;
        let b1 = if bs.len() > 1 { bs[1] as int } else { 0 };
        let b2 = if bs.len() > 2 { bs[2] as int } else { 0 };
        if bs.len() == 1 {
            seq![base64_digit(b0 / 4), base64_digit((b0 % 4) * 16), '=', '=']
        } else if bs.len() == 2 {
            seq![base64_digit(b0 / 4), base64_digit((b0 % 4) * 16 + b1 / 16), base64_digit((b1 % 16) * 4), '=']
        } else {
            seq![
                base64_digit(b0 / 4),
                base64_digit((b0 % 4) * 16 + b1 / 16),
                base64_digit((b1 % 16) * 4 + b2 / 64),
                base64_digit(b2 % 64),
            ] + base64_text(bs.skip(3))
        }
    }
}

/// The bytes that standard Base64 decoding gives for a text, or `None` when it is not valid Base64.
pub uninterp spec fn spec_base64_decode(text: Seq<char>) -> Option<Seq<u8>>;

/// The PBKDF2-HMAC-SHA256 derivation of `len` bytes from a password, a salt and a round count.
pub uninterp spec fn spec_pbkdf2_sha256(password: Seq<u8>, salt: Seq<u8>, rounds: u32, len: nat) -> Seq<
    u8,
>;

/// The longest plaintext AES-GCM encrypts (`aes_gcm::P_MAX`, 2^36 bytes).
pub const AES_GCM_P_MAX: u64 = 68719476736;

/// The view of optional bytes.
pub open spec fn opt_bytes(o: Option<Vec<u8>>) -> Option<Seq<u8>> {
    match o {
        Some(v) => Some(v@),
        None => None,
    }
}

/// `Aes256Gcm::new_from_slice` then `Aead::encrypt` (aes-gcm): `None` when the key is not
/// 32 bytes long (the key is refused) or when encryption reports an error (a plaintext too
/// long for GCM). The ciphertext decrypts back to the plaintext under the same key and nonce,
/// which is what an AEAD cipher guarantees; it is the plaintext encrypted in place followed by
/// the 16-byte tag (`Aead::encrypt` extends the buffer by the tag), so 16 bytes longer.
/// Encryption refuses only plaintexts longer than `P_MAX` (2^36 bytes), so with a 32-byte key
/// and a plaintext within that bound it succeeds.
#[verifier::external_body]
pub(crate) fn aes_gcm_encrypt(key: &[u8], nonce: &[u8], plaintext: &[u8]) -> (r: Option<Vec<u8>>)
    requires
        nonce@.len() == 12,
    ensures
        key@.len() != 32 ==> r is None,
        r matches Some(ct) ==> ct@ == spec_aes_gcm_encrypt(key@, nonce@, plaintext@),
        r matches Some(ct) ==> spec_aes_gcm_decrypt(key@, nonce@, ct@) == Some(plaintext@),
        r matches Some(ct) ==> ct@.len() == plaintext@.len() + 16,
        key@.len() == 32 && plaintext@.len() <= AES_GCM_P_MAX ==> r is Some,
{
    let cipher = Aes256Gcm::new_from_slice(key).ok()?;
    cipher.encrypt(Nonce::from_slice(nonce), plaintext).ok()
}

/// `Aes256Gcm::new_from_slice` then `Aead::decrypt` (aes-gcm): `None` when the key is not
/// 32 bytes long, otherwise the decryption result.
#[verifier::external_body]
pub(crate) fn aes_gcm_decrypt(key: &[u8], nonce: &[u8], ciphertext: &[u8]) -> (r: Option<Vec<u8>>)
    requires
        nonce@.len() == 12,
    ensures
        opt_bytes(r) == (if key@.len() == 32 {
            spec_aes_gcm_decrypt(key@, nonce@, ciphertext@)
        } else {
            None
        }),
{
    let cipher = Aes256Gcm::new_from_slice(key).ok()?;
    cipher.decrypt(Nonce::from_slice(nonce), ciphertext).ok()
}

/// `Aes256Gcm::generate_nonce(&mut OsRng)`: 12 random bytes; nothing is promised of their value.
#[verifier::external_body]
pub(crate) fn random_nonce() -> (r: Vec<u8>)
    ensures
        r@.len() == 12,
{
    Aes256Gcm::generate_nonce(&mut OsRng).to_vec()
}

/// `rand::thread_rng().fill_bytes`: `n` random bytes; nothing is promised of their value.
#[verifier::external_body]
pub(crate) fn random_bytes(n: usize) -> (r: Vec<u8>)
    ensures
        r@.len() == n,
{
    let mut key = vec![0u8; n];
    rand::thread_rng().fill_bytes(&mut key);
    key
}

/// `base64::engine::general_purpose::STANDARD.encode`: the standard alphabet with `=` padding
/// (`base64_text`), which the same engine decodes back to the original bytes (the padding is
/// canonical).
#[verifier::external_body]
pub(crate) fn base64_encode(bytes: &[u8]) -> (r: String)
    ensures
        r@ == base64_text(bytes@),
        spec_base64_decode(r@) == Some(bytes@),
{
    base64::engine::general_purpose::STANDARD.encode(bytes)
}

/// `base64::engine::general_purpose::STANDARD.decode`, with the error mapped to `None`.
#[verifier::external_body]
pub(crate) fn base64_decode(text: &str) -> (r: Option<Vec<u8>>)
    ensures
        opt_bytes(r) == spec_base64_decode(text@),
{
    base64::engine::general_purpose::STANDARD.decode(text).ok()
}

/// `String::from_utf8`: a string exactly when the bytes are valid UTF-8, holding the decoded characters.
#[verifier::external_body]
pub(crate) fn utf8_decode(bytes: Vec<u8>) -> (r: Option<String>)
    ensures
        r is Some <==> valid_utf8(bytes@),
        r matches Some(s) ==> s@ == decode_utf8(bytes@),
{
    String::from_utf8(bytes).ok()
}

/// `pbkdf2::pbkdf2_hmac::<sha2::Sha256>` filling an `out_len`-byte buffer.
#[verifier::external_body]
pub(crate) fn pbkdf2_sha256(password: &[u8], salt: &[u8], rounds: u32, out_len: usize) -> (r: Vec<u8>)
    ensures
        r@ == spec_pbkdf2_sha256(password@, salt@, rounds, out_len as nat),
        r@.len() == out_len,
{
    let mut key = vec![0u8; out_len];
    pbkdf2::pbkdf2_hmac::<sha2::Sha256>(password, salt, rounds, &mut key);
    key
}

} // verus!
