//! The error taxonomy of the engine.  I/O failures never reach this crate:
//! callers hand in plain bytes and take plain bytes back.

use vstd::prelude::*;

verus! {

/// Why an encryption or decryption run was aborted.
///
/// `BadMagic` and `Truncated` are format errors: the container is rejected
/// before or during parsing.  `KeyFormat` and `AeadFailure` are
/// cryptographic errors: a key or ciphertext of the wrong fixed size, or an
/// authentication tag that does not verify — the latter is the tamper and
/// wrong-key signal of the whole pipeline.  `Randomness` means the secure
/// random source failed, which is fatal before any key or nonce material is
/// produced.  `DeriveLength` means more key material was requested than the
/// underlying hash can expand.
#[derive(Clone, Copy, Debug, PartialEq, Eq, Structural)]
pub enum CryptoError {
    /// The first five bytes of the container differ from the magic.
    BadMagic,
    /// The container ends before a declared field or record does.
    Truncated,
    /// A key or KEM ciphertext does not have its algorithm's fixed length.
    KeyFormat,
    /// An AEAD operation failed; on decryption, tag verification failed.
    AeadFailure,
    /// The secure random source returned an error.
    Randomness,
    /// More derived key material was requested than the hash can expand.
    DeriveLength,
}

} // verus!
