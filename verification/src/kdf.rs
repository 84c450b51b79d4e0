//! Key derivation: a salt-less HKDF-SHA-256 extract of the shared secret,
//! followed by an expand step whose `info` label gives domain separation.

use vstd::prelude::*;
use crate::errors::CryptoError;

verus! {

/// The output key material that HKDF-SHA-256 (salt-less extract, then
/// expand) produces from the given input key material, `info` label and
/// output length.  A deterministic function of its arguments alone.
pub uninterp spec fn hkdf_okm(ikm: Seq<u8>, info: Seq<u8>, out_len: nat) -> Seq<u8>;

/// The largest output length HKDF over SHA-256 can expand to: 255 hash
/// blocks of 32 bytes.
pub const MAX_OKM_LEN: usize = 8160;

/// Relies on `hkdf::Hkdf::<sha2::Sha256>::new` (extract with no salt) and
/// `expand`: the output is a deterministic function of the input key
/// material, the label and the length, and expansion fails exactly when
/// more than 255 hash blocks — 8160 bytes — are requested.
#[verifier::external_body]
pub fn hkdf_derive(shared: &[u8], info: &[u8], out_len: usize) -> (r: Result<Vec<u8>, CryptoError>)
    ensures
        r is Ok <==> out_len <= MAX_OKM_LEN,
        r matches Ok(okm) ==> okm@ == hkdf_okm(shared@, info@, out_len as nat) && okm@.len()
            == out_len,
        r matches Err(e) ==> e == CryptoError::DeriveLength,
{
    let hk = hkdf::Hkdf::<sha2::Sha256>::new(None, shared);
    let mut okm = vec![0u8; out_len];
    match hk.expand(info, &mut okm) {
        Ok(()) => Ok(okm),
        Err(_) => Err(CryptoError::DeriveLength),
    }
}

} // verus!
