//! The shared constants of the container format and of the chosen
//! primitives, used by every component: the header magic, the chunk size,
//! the fixed lengths of Kyber-768 keys and of XChaCha20-Poly1305 material,
//! and the domain-separation labels of the key derivation.

use vstd::prelude::*;

verus! {

/// Number of bytes of the header magic.
pub const MAGIC_LEN: usize = 5;

/// Plaintext bytes per chunk; only the final chunk of a file may be shorter.
pub const CHUNK_SIZE: usize = 1024 * 1024;

/// Length of every AEAD nonce (XChaCha20-Poly1305 takes 24-byte nonces).
pub const NONCE_LEN: usize = 24;

/// Length of a symmetric key: the file key and the key-encryption key.
pub const KEY_LEN: usize = 32;

/// Length of the authentication tag appended to every AEAD ciphertext.
pub const TAG_LEN: usize = 16;

/// Length of the wrapped file key: the file key plus its tag.
pub const WRAPPED_KEY_LEN: usize = 48;

/// Length of a Kyber-768 public key.
pub const PUBLIC_KEY_LEN: usize = 1184;

/// Length of a Kyber-768 secret key.
pub const SECRET_KEY_LEN: usize = 2400;

/// Length of a Kyber-768 encapsulation ciphertext.
pub const KEM_CIPHERTEXT_LEN: usize = 1088;

/// Length of the shared secret a Kyber-768 encapsulation agrees on.
pub const SHARED_SECRET_LEN: usize = 32;

/// The header magic, `RKPQ1` in ASCII.
pub open spec fn spec_magic() -> Seq<u8> {
    seq![0x52u8, 0x4bu8, 0x50u8, 0x51u8, 0x31u8]
}

/// The domain-separation label under which the key-encryption key is
/// derived, `kyber-kek-v1` in ASCII.
pub open spec fn spec_kek_label() -> Seq<u8> {
    seq![0x6bu8, 0x79u8, 0x62u8, 0x65u8, 0x72u8, 0x2du8, 0x6bu8, 0x65u8, 0x6bu8, 0x2du8, 0x76u8,
        0x31u8]
}

/// The domain-separation label of the benchmark session key,
/// `kyber-session-v1` in ASCII.  Distinct from `spec_kek_label()`, so the
/// two purposes never share derived material.
pub open spec fn spec_session_label() -> Seq<u8> {
    seq![0x6bu8, 0x79u8, 0x62u8, 0x65u8, 0x72u8, 0x2du8, 0x73u8, 0x65u8, 0x73u8, 0x73u8, 0x69u8,
        0x6fu8, 0x6eu8, 0x2du8, 0x76u8, 0x31u8]
}

/// The header magic as a vector.
pub fn magic_bytes() -> (r: Vec<u8>)
    ensures
        r@ == spec_magic(),
{
    let mut v: Vec<u8> = Vec::new();
    v.push(0x52);
    v.push(0x4b);
    v.push(0x50);
    v.push(0x51);
    v.push(0x31);
    proof {
        assert(v@ =~= spec_magic());
    }
    v
}

/// The key-encryption-key label as a vector.
pub fn kek_label() -> (r: Vec<u8>)
    ensures
        r@ == spec_kek_label(),
{
    let mut v: Vec<u8> = Vec::new();
    v.push(0x6b);
    v.push(0x79);
    v.push(0x62);
    v.push(0x65);
    v.push(0x72);
    v.push(0x2d);
    v.push(0x6b);
    v.push(0x65);
    v.push(0x6b);
    v.push(0x2d);
    v.push(0x76);
    v.push(0x31);
    proof {
        assert(v@ =~= spec_kek_label());
    }
    v
}

/// The session-key label as a vector.
pub fn session_label() -> (r: Vec<u8>)
    ensures
        r@ == spec_session_label(),
{
    let mut v: Vec<u8> = Vec::new();
    v.push(0x6b);
    v.push(0x79);
    v.push(0x62);
    v.push(0x65);
    v.push(0x72);
    v.push(0x2d);
    v.push(0x73);
    v.push(0x65);
    v.push(0x73);
    v.push(0x73);
    v.push(0x69);
    v.push(0x6f);
    v.push(0x6e);
    v.push(0x2d);
    v.push(0x76);
    v.push(0x31);
    proof {
        assert(v@ =~= spec_session_label());
    }
    v
}

} // verus!
