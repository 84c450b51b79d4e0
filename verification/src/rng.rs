//! The secure random source.  File keys and every nonce come from here; a
//! failure of the source aborts the whole operation.

use vstd::prelude::*;
use crate::errors::CryptoError;

verus! {

/// Relies on `getrandom::fill`: on success the buffer holds bytes from the
/// operating system's secure random source.  Nothing can be promised about
/// the bytes themselves.
#[verifier::external_body]
pub(crate) fn os_random_bytes(n: usize) -> (r: Result<Vec<u8>, CryptoError>)
    ensures
        r matches Ok(b) ==> b@.len() == n,
        r matches Err(e) ==> e == CryptoError::Randomness,
{
    let mut buf = vec![0u8; n];
    match getrandom::fill(&mut buf) {
        Ok(()) => Ok(buf),
        Err(_) => Err(CryptoError::Randomness),
    }
}

} // verus!
