//! Tampering and wrong keys: any flipped bit in the KEM ciphertext, the
//! wrap nonce, the wrapped key, a chunk nonce or a chunk ciphertext must
//! make decryption fail, never yield wrong plaintext silently; a bad magic
//! is rejected before any key material is touched; and a mismatched secret
//! key fails at the unwrap step, not at decapsulation.

use pqfile::engine::{decrypt_bytes, encrypt_bytes};
use pqfile::errors::CryptoError;
use pqfile::kem::decapsulate;
use pqfile::keys::KeyPair;

// Header layout: magic 5, length 2, KEM ciphertext 1088, wrap nonce 24,
// length 2, wrapped file key 48; records begin at 1169.
const KEM_CT_START: usize = 7;
const WRAP_NONCE_START: usize = 1095;
const WRAPPED_KEY_START: usize = 1121;
const RECORDS_START: usize = 1169;

fn encrypted_sample() -> (KeyPair, Vec<u8>, Vec<u8>) {
    let kp = KeyPair::generate();
    let plaintext: Vec<u8> = (0u32..300).map(|i| (i % 256) as u8).collect();
    let container = encrypt_bytes(&plaintext, &kp.public_key).expect("encrypt");
    (kp, plaintext, container)
}

fn assert_flip_fails(kp: &KeyPair, plaintext: &[u8], container: &[u8], byte: usize, bit: u8) {
    let mut tampered = container.to_vec();
    tampered[byte] ^= 1u8 << bit;
    match decrypt_bytes(&tampered, &kp.secret_key) {
        Ok(p) => panic!(
            "tampering byte {} bit {} went undetected (got {} bytes, wanted failure, original {})",
            byte,
            bit,
            p.len(),
            plaintext.len()
        ),
        Err(e) => assert!(
            matches!(e, CryptoError::AeadFailure | CryptoError::Truncated | CryptoError::BadMagic),
            "unexpected error {:?}",
            e
        ),
    }
}

#[test]
fn tamper_kem_ciphertext_detected() {
    let (kp, plaintext, container) = encrypted_sample();
    for &byte in &[KEM_CT_START, KEM_CT_START + 500, WRAP_NONCE_START - 1] {
        for bit in [0u8, 7u8] {
            assert_flip_fails(&kp, &plaintext, &container, byte, bit);
        }
    }
}

#[test]
fn tamper_wrap_nonce_detected() {
    let (kp, plaintext, container) = encrypted_sample();
    for &byte in &[WRAP_NONCE_START, WRAP_NONCE_START + 12, WRAP_NONCE_START + 23] {
        assert_flip_fails(&kp, &plaintext, &container, byte, 3);
    }
}

#[test]
fn tamper_wrapped_key_detected() {
    let (kp, plaintext, container) = encrypted_sample();
    for &byte in &[WRAPPED_KEY_START, WRAPPED_KEY_START + 31, WRAPPED_KEY_START + 47] {
        assert_flip_fails(&kp, &plaintext, &container, byte, 5);
    }
}

#[test]
fn tamper_chunk_nonce_detected() {
    let (kp, plaintext, container) = encrypted_sample();
    for &byte in &[RECORDS_START, RECORDS_START + 23] {
        assert_flip_fails(&kp, &plaintext, &container, byte, 1);
    }
}

#[test]
fn tamper_chunk_ciphertext_detected() {
    let (kp, plaintext, container) = encrypted_sample();
    let ct_start = RECORDS_START + 28;
    let last = container.len() - 1;
    for &byte in &[ct_start, ct_start + 100, last] {
        for bit in 0u8..8u8 {
            assert_flip_fails(&kp, &plaintext, &container, byte, bit);
        }
    }
}

#[test]
fn tamper_chunk_length_detected() {
    let (kp, plaintext, container) = encrypted_sample();
    for &byte in &[RECORDS_START + 24, RECORDS_START + 27] {
        assert_flip_fails(&kp, &plaintext, &container, byte, 0);
    }
}

#[test]
fn bad_magic_rejected_before_anything_else() {
    let (kp, _plaintext, container) = encrypted_sample();
    for byte in 0..5 {
        let mut tampered = container.clone();
        tampered[byte] ^= 0x20;
        assert_eq!(decrypt_bytes(&tampered, &kp.secret_key), Err(CryptoError::BadMagic));
        // an arbitrary wrong key makes no difference: the magic decides first
        assert_eq!(decrypt_bytes(&tampered, &[0u8; 2400]), Err(CryptoError::BadMagic));
    }
}

#[test]
fn truncated_container_rejected() {
    let (kp, _plaintext, container) = encrypted_sample();
    for &len in &[0usize, 4, 6, 100, 1168, RECORDS_START + 10, container.len() - 1] {
        let truncated = &container[..len];
        assert_eq!(decrypt_bytes(truncated, &kp.secret_key), Err(CryptoError::Truncated));
    }
}

#[test]
fn wrong_key_fails_at_unwrap_not_decapsulation() {
    let (kp, _plaintext, container) = encrypted_sample();
    let other = KeyPair::generate();
    // decapsulation with the mismatched key still succeeds ...
    let kem_ct = &container[KEM_CT_START..KEM_CT_START + 1088];
    let ss_right = decapsulate(kem_ct, &kp.secret_key).expect("decapsulate");
    let ss_wrong = decapsulate(kem_ct, &other.secret_key).expect("decapsulate");
    assert_ne!(ss_right, ss_wrong);
    // ... and the pipeline fails at the AEAD unwrap of the file key.
    assert_eq!(decrypt_bytes(&container, &other.secret_key), Err(CryptoError::AeadFailure));
}

#[test]
fn wrong_length_secret_key_rejected() {
    let (_kp, _plaintext, container) = encrypted_sample();
    assert_eq!(decrypt_bytes(&container, &[7u8; 100]), Err(CryptoError::KeyFormat));
}

#[test]
fn wrong_length_public_key_rejected() {
    assert_eq!(encrypt_bytes(b"hello", &[1u8; 10]), Err(CryptoError::KeyFormat));
}
