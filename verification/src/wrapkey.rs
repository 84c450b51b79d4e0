//! Key wrapping: the per-file key is AEAD-encrypted under the derived
//! key-encryption key with a fresh random 24-byte nonce and no associated
//! data.  The unwrap step is the point where a mismatched secret key is
//! actually detected, through tag verification.

use vstd::prelude::*;
use crate::cipher::{aead_encrypt, aead_decrypt, aead_seal, aead_open};
use crate::errors::CryptoError;
use crate::params::{KEY_LEN, NONCE_LEN, WRAPPED_KEY_LEN};
use crate::rng::os_random_bytes;

verus! {

/// Wrap a file key under a key-encryption key: draw a fresh 24-byte nonce
/// and AEAD-encrypt the key.  Returns the nonce and the 48-byte wrapped
/// key; the only possible failure is the random source.
pub fn wrap_key(kek: &[u8], file_key: &[u8]) -> (r: Result<(Vec<u8>, Vec<u8>), CryptoError>)
    requires
        kek@.len() == KEY_LEN,
        file_key@.len() == KEY_LEN,
    ensures
        r matches Ok((nonce, wrapped)) ==> nonce@.len() == NONCE_LEN && wrapped@ == aead_seal(
            kek@,
            nonce@,
            file_key@,
        ) && wrapped@.len() == WRAPPED_KEY_LEN && aead_open(kek@, nonce@, wrapped@) == Some(
            file_key@,
        ),
        r matches Err(e) ==> e == CryptoError::Randomness,
{
    let nonce = os_random_bytes(NONCE_LEN)?;
    match aead_encrypt(kek, nonce.as_slice(), file_key) {
        Ok(wrapped) => Ok((nonce, wrapped)),
        Err(_) => unreached(),
    }
}

/// Unwrap a wrapped file key.  Succeeds exactly when the tag verifies
/// under this key-encryption key and nonce, and then returns the original
/// file key; fails with an authentication error otherwise.
pub fn unwrap_key(kek: &[u8], nonce: &[u8], wrapped: &[u8]) -> (r: Result<Vec<u8>, CryptoError>)
    requires
        kek@.len() == KEY_LEN,
        nonce@.len() == NONCE_LEN,
    ensures
        r matches Ok(fk) ==> aead_open(kek@, nonce@, wrapped@) == Some(fk@),
        r is Err ==> aead_open(kek@, nonce@, wrapped@) is None,
        r matches Err(e) ==> e == CryptoError::AeadFailure,
{
    aead_decrypt(kek, nonce, wrapped)
}

} // verus!
