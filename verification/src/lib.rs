//! Hybrid post-quantum file encryption.
//!
//! A lattice-based key-encapsulation mechanism (Kyber-768) establishes a
//! shared secret per file; an HKDF-SHA-256 expansion of that secret yields a
//! key-encryption key, which wraps a fresh 32-byte file key; the file content
//! is then streamed through XChaCha20-Poly1305 in bounded chunks.  The
//! container format, the nonce discipline and the chunked streaming are
//! verified; the cryptographic primitives themselves are called through
//! trusted wrappers whose contracts state what their crates document.

pub mod params;
pub mod errors;
pub mod rng;
pub mod kdf;
pub mod kem;
pub mod keys;
pub mod cipher;
pub mod wrapkey;
pub mod codec;
pub mod dashboard;
pub mod engine;
pub mod session;
