//! The authenticated cipher: XChaCha20-Poly1305 behind trusted wrappers.
//! Every chunk and the wrapped file key go through these two functions,
//! always with no associated data.

use vstd::prelude::*;
use chacha20poly1305::{XChaCha20Poly1305, XNonce, KeyInit, aead::Aead};
use crate::errors::CryptoError;
use crate::params::{KEY_LEN, NONCE_LEN, TAG_LEN};

verus! {

/// The ciphertext (with its appended 16-byte tag) that XChaCha20-Poly1305
/// produces from a key, a nonce and a plaintext: a deterministic function
/// of its arguments alone.
pub uninterp spec fn aead_seal(key: Seq<u8>, nonce: Seq<u8>, plaintext: Seq<u8>) -> Seq<u8>;

/// What XChaCha20-Poly1305 decryption returns for a key, a nonce and a
/// ciphertext: the plaintext when the tag verifies, nothing otherwise.  A
/// deterministic function of its arguments alone.
pub uninterp spec fn aead_open(key: Seq<u8>, nonce: Seq<u8>, ciphertext: Seq<u8>) -> Option<Seq<u8>>;

/// The largest plaintext the cipher accepts: 2^32 - 1 blocks of 64 bytes.
/// Anything below this bound encrypts without error.
pub const AEAD_MAX_PLAINTEXT: u64 = 0x3fffffffc0;

/// Relies on `chacha20poly1305::XChaCha20Poly1305` through `aead::Aead::
/// encrypt` with no associated data: the ciphertext is a deterministic
/// function of key, nonce and plaintext, is the plaintext length plus the
/// 16-byte tag, decrypts back to the plaintext under the same key and
/// nonce, and the only failure is a plaintext of 2^32 - 1 or more 64-byte
/// blocks.
#[verifier::external_body]
pub(crate) fn aead_encrypt(key: &[u8], nonce: &[u8], plaintext: &[u8]) -> (r: Result<Vec<u8>, CryptoError>)
    requires
        key@.len() == KEY_LEN,
        nonce@.len() == NONCE_LEN,
    ensures
        r is Ok <==> plaintext@.len() < AEAD_MAX_PLAINTEXT,
        r matches Ok(ct) ==> ct@ == aead_seal(key@, nonce@, plaintext@) && ct@.len()
            == plaintext@.len() + TAG_LEN && aead_open(key@, nonce@, ct@) == Some(plaintext@),
        r matches Err(e) ==> e == CryptoError::AeadFailure,
{
    let aead = match XChaCha20Poly1305::new_from_slice(key) {
        Ok(aead) => aead,
        Err(_) => return Err(CryptoError::AeadFailure),
    };
    let xnonce: &XNonce = match nonce.try_into() {
        Ok(xnonce) => xnonce,
        Err(_) => return Err(CryptoError::AeadFailure),
    };
    aead.encrypt(xnonce, plaintext).map_err(|_| CryptoError::AeadFailure)
}

/// Relies on `aead::Aead::decrypt` for `XChaCha20Poly1305` with no
/// associated data: decryption is a deterministic function of key, nonce
/// and ciphertext, and returns the plaintext — 16 bytes shorter — exactly
/// when the authentication tag verifies.
#[verifier::external_body]
pub(crate) fn aead_decrypt(key: &[u8], nonce: &[u8], ciphertext: &[u8]) -> (r: Result<Vec<u8>, CryptoError>)
    requires
        key@.len() == KEY_LEN,
        nonce@.len() == NONCE_LEN,
    ensures
        r matches Ok(pt) ==> aead_open(key@, nonce@, ciphertext@) == Some(pt@) && pt@.len()
            + TAG_LEN == ciphertext@.len(),
        r is Err ==> aead_open(key@, nonce@, ciphertext@) is None,
        r matches Err(e) ==> e == CryptoError::AeadFailure,
{
    let aead = match XChaCha20Poly1305::new_from_slice(key) {
        Ok(aead) => aead,
        Err(_) => return Err(CryptoError::AeadFailure),
    };
    let xnonce: &XNonce = match nonce.try_into() {
        Ok(xnonce) => xnonce,
        Err(_) => return Err(CryptoError::AeadFailure),
    };
    aead.decrypt(xnonce, ciphertext).map_err(|_| CryptoError::AeadFailure)
}

} // verus!
