//! The key-encapsulation mechanism: Kyber-768 behind trusted wrappers, and
//! the verified encapsulate/decapsulate surface over plain byte strings.
//!
//! Decapsulation never fails for well-sized inputs: with a mismatched
//! secret key it returns a different, wrong secret, and the downstream AEAD
//! unwrap is what actually detects the mismatch.

use vstd::prelude::*;
use crate::errors::CryptoError;
use crate::params::{PUBLIC_KEY_LEN, SECRET_KEY_LEN, KEM_CIPHERTEXT_LEN, SHARED_SECRET_LEN};

verus! {

/// The shared secret that Kyber-768 decapsulation computes from a
/// ciphertext and a secret key: a deterministic function of the two byte
/// strings alone (decapsulation draws no randomness).
pub uninterp spec fn kyber_decap(kem_ciphertext: Seq<u8>, secret_key: Seq<u8>) -> Seq<u8>;

/// That a public key and a secret key came out of one Kyber-768 key
/// generation: the relation under which encapsulation and decapsulation
/// agree on the shared secret.
pub uninterp spec fn kem_key_match(public_key: Seq<u8>, secret_key: Seq<u8>) -> bool;

/// Relies on `pqcrypto_kyber::kyber768::keypair`: the pair has the
/// algorithm's fixed sizes, and decapsulating any encapsulation to the
/// public key with the secret key recovers the agreed secret.
#[verifier::external_body]
fn kem_keypair_raw() -> (r: (Vec<u8>, Vec<u8>))
    ensures
        r.0@.len() == PUBLIC_KEY_LEN,
        r.1@.len() == SECRET_KEY_LEN,
        kem_key_match(r.0@, r.1@),
{
    let (pk, sk) = pqcrypto_kyber::kyber768::keypair();
    let pk_bytes = pqcrypto_traits::kem::PublicKey::as_bytes(&pk).to_vec();
    let sk_bytes = pqcrypto_traits::kem::SecretKey::as_bytes(&sk).to_vec();
    (pk_bytes, sk_bytes)
}

/// Relies on `kyber768::PublicKey::from_bytes`, which fails exactly when
/// the slice is not the fixed public-key size, and `kyber768::encapsulate`:
/// the ciphertext and secret have their fixed sizes, and decapsulation
/// under any matching secret key returns the same secret.
#[verifier::external_body]
fn kem_encapsulate_raw(public_key: &[u8]) -> (r: Result<(Vec<u8>, Vec<u8>), CryptoError>)
    ensures
        r is Ok <==> public_key@.len() == PUBLIC_KEY_LEN,
        r matches Ok((ct, ss)) ==> ct@.len() == KEM_CIPHERTEXT_LEN && ss@.len()
            == SHARED_SECRET_LEN && (forall|sk: Seq<u8>|
            #[trigger] kem_key_match(public_key@, sk) ==> kyber_decap(ct@, sk) == ss@),
        r matches Err(e) ==> e == CryptoError::KeyFormat,
{
    let pk: pqcrypto_kyber::kyber768::PublicKey =
        match pqcrypto_traits::kem::PublicKey::from_bytes(public_key) {
            Ok(pk) => pk,
            Err(_) => return Err(CryptoError::KeyFormat),
        };
    let (ss, ct) = pqcrypto_kyber::kyber768::encapsulate(&pk);
    let ct_bytes = pqcrypto_traits::kem::Ciphertext::as_bytes(&ct).to_vec();
    let ss_bytes = pqcrypto_traits::kem::SharedSecret::as_bytes(&ss).to_vec();
    Ok((ct_bytes, ss_bytes))
}

/// Relies on `kyber768::Ciphertext::from_bytes` and
/// `kyber768::SecretKey::from_bytes`, which fail exactly when a slice does
/// not have its fixed size, and `kyber768::decapsulate`, which always
/// returns a 32-byte secret, a deterministic function of ciphertext and
/// secret key.
#[verifier::external_body]
fn kem_decapsulate_raw(kem_ciphertext: &[u8], secret_key: &[u8]) -> (r: Result<Vec<u8>, CryptoError>)
    ensures
        r is Ok ==> kem_ciphertext@.len() == KEM_CIPHERTEXT_LEN && secret_key@.len() == SECRET_KEY_LEN,
        r is Err ==> !(kem_ciphertext@.len() == KEM_CIPHERTEXT_LEN && secret_key@.len() == SECRET_KEY_LEN),
        r matches Ok(ss) ==> ss@ == kyber_decap(kem_ciphertext@, secret_key@) && ss@.len() == SHARED_SECRET_LEN,
        r matches Err(e) ==> e == CryptoError::KeyFormat,
{
    let ct: pqcrypto_kyber::kyber768::Ciphertext =
        match pqcrypto_traits::kem::Ciphertext::from_bytes(kem_ciphertext) {
            Ok(ct) => ct,
            Err(_) => return Err(CryptoError::KeyFormat),
        };
    let sk: pqcrypto_kyber::kyber768::SecretKey =
        match pqcrypto_traits::kem::SecretKey::from_bytes(secret_key) {
            Ok(sk) => sk,
            Err(_) => return Err(CryptoError::KeyFormat),
        };
    let ss = pqcrypto_kyber::kyber768::decapsulate(&ct, &sk);
    Ok(pqcrypto_traits::kem::SharedSecret::as_bytes(&ss).to_vec())
}

/// Generate a Kyber-768 key pair as raw bytes: public key, then secret key.
pub fn keypair() -> (r: (Vec<u8>, Vec<u8>))
    ensures
        r.0@.len() == PUBLIC_KEY_LEN,
        r.1@.len() == SECRET_KEY_LEN,
        kem_key_match(r.0@, r.1@),
{
    kem_keypair_raw()
}

/// Encapsulate to a public key: produce a KEM ciphertext and the shared
/// secret it transports.  Fails exactly on a public key of the wrong size.
pub fn encapsulate(public_key: &[u8]) -> (r: Result<(Vec<u8>, Vec<u8>), CryptoError>)
    ensures
        r is Ok <==> public_key@.len() == PUBLIC_KEY_LEN,
        r matches Ok((ct, ss)) ==> ct@.len() == KEM_CIPHERTEXT_LEN && ss@.len()
            == SHARED_SECRET_LEN && (forall|sk: Seq<u8>|
            #[trigger] kem_key_match(public_key@, sk) ==> kyber_decap(ct@, sk) == ss@),
        r matches Err(e) ==> e == CryptoError::KeyFormat,
{
    kem_encapsulate_raw(public_key)
}

/// Recover the shared secret from a KEM ciphertext and a secret key.  Fails
/// exactly on inputs of the wrong size; a well-sized but mismatched secret
/// key yields a wrong secret, never an error here.
pub fn decapsulate(kem_ciphertext: &[u8], secret_key: &[u8]) -> (r: Result<Vec<u8>, CryptoError>)
    ensures
        r is Ok <==> kem_ciphertext@.len() == KEM_CIPHERTEXT_LEN && secret_key@.len()
            == SECRET_KEY_LEN,
        r matches Ok(ss) ==> ss@ == kyber_decap(kem_ciphertext@, secret_key@) && ss@.len()
            == SHARED_SECRET_LEN,
        r matches Err(e) ==> e == CryptoError::KeyFormat,
{
    kem_decapsulate_raw(kem_ciphertext, secret_key)
}

} // verus!
