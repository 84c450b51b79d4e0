//! Benchmark-session support: one encapsulation, a session key derived
//! under its own label, and a single AEAD encrypt/decrypt round trip that
//! a caller can repeat and time.  Nothing here touches the container
//! format.

use vstd::prelude::*;
use crate::cipher::{aead_encrypt, aead_decrypt, AEAD_MAX_PLAINTEXT};
use crate::errors::CryptoError;
use crate::kdf::{hkdf_derive, hkdf_okm};
use crate::kem::{kyber_decap, kem_key_match, encapsulate};
use crate::params::{KEY_LEN, NONCE_LEN, KEM_CIPHERTEXT_LEN, PUBLIC_KEY_LEN, spec_session_label,
    session_label};
use crate::rng::os_random_bytes;

verus! {

/// Encapsulate to the public key and derive a 32-byte session key from
/// the agreed secret under the session label.  Returns the KEM ciphertext
/// and the session key; fails exactly on a public key of the wrong size.
pub fn session_setup(public_key: &[u8]) -> (r: Result<(Vec<u8>, Vec<u8>), CryptoError>)
    ensures
        r is Ok <==> public_key@.len() == PUBLIC_KEY_LEN,
        r matches Ok((ct, key)) ==> ct@.len() == KEM_CIPHERTEXT_LEN && key@.len() == KEY_LEN && (
        forall|sk: Seq<u8>|
            #[trigger] kem_key_match(public_key@, sk) ==> key@ == hkdf_okm(
                kyber_decap(ct@, sk),
                spec_session_label(),
                KEY_LEN as nat,
            )),
        r matches Err(e) ==> e == CryptoError::KeyFormat,
{
    let (kem_ct, shared) = match encapsulate(public_key) {
        Ok(p) => p,
        Err(e) => {
            return Err(e);
        },
    };
    let label = session_label();
    let key = match hkdf_derive(shared.as_slice(), label.as_slice(), KEY_LEN) {
        Ok(k) => k,
        Err(_) => {
            return unreached();
        },
    };
    Ok((kem_ct, key))
}

/// One benchmark iteration: encrypt the message under a fresh random
/// nonce, decrypt it again, and return the decrypted bytes, which are the
/// message itself.  The only possible failure is the random source.
pub fn seal_open_once(key: &[u8], msg: &[u8]) -> (r: Result<Vec<u8>, CryptoError>)
    requires
        key@.len() == KEY_LEN,
        msg@.len() < AEAD_MAX_PLAINTEXT,
    ensures
        r matches Ok(p) ==> p@ == msg@,
        r matches Err(e) ==> e == CryptoError::Randomness,
{
    let nonce = match os_random_bytes(NONCE_LEN) {
        Ok(x) => x,
        Err(e) => {
            return Err(e);
        },
    };
    let ct = match aead_encrypt(key, nonce.as_slice(), msg) {
        Ok(c) => c,
        Err(_) => {
            return unreached();
        },
    };
    match aead_decrypt(key, nonce.as_slice(), ct.as_slice()) {
        Ok(p) => Ok(p),
        Err(_) => unreached(),
    }
}

} // verus!
