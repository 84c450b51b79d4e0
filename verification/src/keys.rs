//! Key generation: a Kyber-768 key pair held as raw bytes.  Persisting the
//! two byte strings to files is the caller's concern; this crate only
//! produces and consumes them.

use vstd::prelude::*;
use crate::kem;
use crate::params::{PUBLIC_KEY_LEN, SECRET_KEY_LEN};

verus! {

/// A KEM key pair as raw bytes, of the algorithm's fixed sizes.
pub struct KeyPair {
    /// The public key, 1184 bytes.
    pub public_key: Vec<u8>,
    /// The secret key, 2400 bytes.
    pub secret_key: Vec<u8>,
}

impl KeyPair {
    /// Both keys have their fixed sizes and came out of one generation.
    pub open spec fn wf(self) -> bool {
        self.public_key@.len() == PUBLIC_KEY_LEN && self.secret_key@.len() == SECRET_KEY_LEN
            && kem::kem_key_match(self.public_key@, self.secret_key@)
    }

    /// Generate a fresh key pair.
    pub fn generate() -> (r: KeyPair)
        ensures
            r.wf(),
    {
        let (public_key, secret_key) = kem::keypair();
        KeyPair { public_key, secret_key }
    }
}

} // verus!
