//! The primitives one by one: key sizes, the key derivation against the
//! published HKDF-SHA-256 test vector, key wrapping, the session helpers,
//! and the header codec.

use pqfile::cipher::AEAD_MAX_PLAINTEXT;
use pqfile::codec::{count_chunk_records, decode_header, encode_header, Header};
use pqfile::errors::CryptoError;
use pqfile::kdf::{hkdf_derive, MAX_OKM_LEN};
use pqfile::kem::{decapsulate, encapsulate, keypair};
use pqfile::keys::KeyPair;
use pqfile::session::{seal_open_once, session_setup};
use pqfile::wrapkey::{unwrap_key, wrap_key};

#[test]
fn keypair_has_fixed_sizes() {
    let kp = KeyPair::generate();
    assert_eq!(kp.public_key.len(), 1184);
    assert_eq!(kp.secret_key.len(), 2400);
}

#[test]
fn encapsulate_decapsulate_agree() {
    let (pk, sk) = keypair();
    let (kem_ct, ss) = encapsulate(&pk).expect("encapsulate");
    assert_eq!(kem_ct.len(), 1088);
    assert_eq!(ss.len(), 32);
    let ss2 = decapsulate(&kem_ct, &sk).expect("decapsulate");
    assert_eq!(ss, ss2);
}

#[test]
fn kem_rejects_wrong_lengths() {
    assert_eq!(encapsulate(&[0u8; 1183]).unwrap_err(), CryptoError::KeyFormat);
    let (pk, sk) = keypair();
    let (kem_ct, _) = encapsulate(&pk).expect("encapsulate");
    assert_eq!(decapsulate(&kem_ct[..1087], &sk).unwrap_err(), CryptoError::KeyFormat);
    assert_eq!(decapsulate(&kem_ct, &sk[..2399]).unwrap_err(), CryptoError::KeyFormat);
}

fn hex(bytes: &[u8]) -> String {
    let mut s = String::new();
    for b in bytes {
        s.push_str(&format!("{:02x}", b));
    }
    s
}

#[test]
fn hkdf_matches_published_vector() {
    // RFC 5869, test case 3 for SHA-256: 22 bytes of 0x0b, default salt,
    // empty info, 42 bytes of output.
    let ikm = [0x0bu8; 22];
    let okm = hkdf_derive(&ikm, &[], 42).expect("derive");
    assert_eq!(
        hex(&okm),
        "8da4e775a563c18f715f802a063c5a31b8a11f5c5ee1879ec3454e5f3c738d2d9d201395faa4b61a96c8"
    );
}

#[test]
fn hkdf_labels_separate_domains() {
    let shared = [42u8; 32];
    let kek = hkdf_derive(&shared, b"kyber-kek-v1", 32).expect("derive");
    let session = hkdf_derive(&shared, b"kyber-session-v1", 32).expect("derive");
    assert_eq!(kek.len(), 32);
    assert_eq!(session.len(), 32);
    assert_ne!(kek, session);
}

#[test]
fn hkdf_enforces_expansion_limit() {
    let okm = hkdf_derive(&[1u8; 32], b"x", MAX_OKM_LEN).expect("derive");
    assert_eq!(okm.len(), MAX_OKM_LEN);
    assert_eq!(hkdf_derive(&[1u8; 32], b"x", MAX_OKM_LEN + 1).unwrap_err(),
        CryptoError::DeriveLength);
}

#[test]
fn wrap_then_unwrap_returns_the_file_key() {
    let kek = [9u8; 32];
    let file_key = [250u8; 32];
    let (nonce, wrapped) = wrap_key(&kek, &file_key).expect("wrap");
    assert_eq!(nonce.len(), 24);
    assert_eq!(wrapped.len(), 48);
    let unwrapped = unwrap_key(&kek, &nonce, &wrapped).expect("unwrap");
    assert_eq!(unwrapped, file_key.to_vec());
}

#[test]
fn unwrap_rejects_tampering_and_wrong_kek() {
    let kek = [9u8; 32];
    let file_key = [250u8; 32];
    let (nonce, wrapped) = wrap_key(&kek, &file_key).expect("wrap");
    let mut bad = wrapped.clone();
    bad[0] ^= 1;
    assert_eq!(unwrap_key(&kek, &nonce, &bad).unwrap_err(), CryptoError::AeadFailure);
    let other_kek = [10u8; 32];
    assert_eq!(unwrap_key(&other_kek, &nonce, &wrapped).unwrap_err(), CryptoError::AeadFailure);
}

#[test]
fn session_setup_key_follows_from_its_ciphertext() {
    let (pk, sk) = keypair();
    let (kem_ct, session_key) = session_setup(&pk).expect("setup");
    assert_eq!(kem_ct.len(), 1088);
    assert_eq!(session_key.len(), 32);
    // the recipient reconstructs the same session key
    let ss = decapsulate(&kem_ct, &sk).expect("decapsulate");
    let expected = hkdf_derive(&ss, b"kyber-session-v1", 32).expect("derive");
    assert_eq!(session_key, expected);
    assert_eq!(session_setup(&[0u8; 4]).unwrap_err(), CryptoError::KeyFormat);
}

#[test]
fn seal_open_once_returns_the_message() {
    let key = [77u8; 32];
    let msg: Vec<u8> = (0u32..256).map(|i| i as u8).collect();
    assert!((msg.len() as u64) < AEAD_MAX_PLAINTEXT);
    let out = seal_open_once(&key, &msg).expect("roundtrip");
    assert_eq!(out, msg);
}

#[test]
fn header_codec_roundtrip() {
    let header = Header {
        kem_ciphertext: vec![1u8, 2, 3, 4],
        wrap_nonce: vec![5u8; 24],
        wrapped_file_key: vec![6u8; 48],
    };
    let mut bytes = encode_header(&header);
    assert_eq!(bytes.len(), 5 + 2 + 4 + 24 + 2 + 48);
    assert_eq!(&bytes[..5], b"RKPQ1");
    assert_eq!(&bytes[5..7], &[0, 4]);
    bytes.push(0xaa); // trailing byte belongs to the record stream
    let (decoded, off) = decode_header(&bytes).expect("decode");
    assert_eq!(off, bytes.len() - 1);
    assert_eq!(decoded.kem_ciphertext, header.kem_ciphertext);
    assert_eq!(decoded.wrap_nonce, header.wrap_nonce);
    assert_eq!(decoded.wrapped_file_key, header.wrapped_file_key);
}

#[test]
fn header_codec_rejects_bad_inputs() {
    let header = Header {
        kem_ciphertext: vec![1u8, 2, 3, 4],
        wrap_nonce: vec![5u8; 24],
        wrapped_file_key: vec![6u8; 48],
    };
    let bytes = encode_header(&header);
    assert_eq!(decode_header(&bytes[..3]).unwrap_err(), CryptoError::Truncated);
    assert_eq!(decode_header(&bytes[..bytes.len() - 1]).unwrap_err(), CryptoError::Truncated);
    let mut wrong = bytes.clone();
    wrong[0] = b'X';
    assert_eq!(decode_header(&wrong).unwrap_err(), CryptoError::BadMagic);
}

#[test]
fn record_counting_follows_the_framing() {
    let header = Header {
        kem_ciphertext: vec![1u8, 2, 3, 4],
        wrap_nonce: vec![5u8; 24],
        wrapped_file_key: vec![6u8; 48],
    };
    let mut bytes = encode_header(&header);
    assert_eq!(count_chunk_records(&bytes), Ok(0));
    // one record: 24-byte nonce, big-endian length 3, 3 ciphertext bytes
    bytes.extend_from_slice(&[7u8; 24]);
    bytes.extend_from_slice(&[0, 0, 0, 3]);
    bytes.extend_from_slice(&[8, 9, 10]);
    assert_eq!(count_chunk_records(&bytes), Ok(1));
    // a second, empty-ciphertext record
    bytes.extend_from_slice(&[11u8; 24]);
    bytes.extend_from_slice(&[0, 0, 0, 0]);
    assert_eq!(count_chunk_records(&bytes), Ok(2));
    // a dangling half record is truncation
    bytes.extend_from_slice(&[12u8; 10]);
    assert_eq!(count_chunk_records(&bytes), Err(CryptoError::Truncated));
}
