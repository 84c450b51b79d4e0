//! Statistical nonce discipline: across well over ten thousand generated
//! nonces — wrap nonces and chunk nonces alike — no 24-byte value repeats.

use std::collections::HashSet;

use pqfile::engine::encrypt_bytes;
use pqfile::keys::KeyPair;
use pqfile::params::CHUNK_SIZE;
use pqfile::wrapkey::wrap_key;

#[test]
fn no_duplicate_nonces_across_many_operations() {
    let mut seen: HashSet<[u8; 24]> = HashSet::new();
    let mut total = 0usize;

    let kek = [1u8; 32];
    let file_key = [2u8; 32];
    for _ in 0..10_000 {
        let (nonce, _wrapped) = wrap_key(&kek, &file_key).expect("wrap");
        let mut arr = [0u8; 24];
        arr.copy_from_slice(&nonce);
        assert!(seen.insert(arr), "duplicate wrap nonce");
        total += 1;
    }

    // chunk nonces from a real multi-chunk encryption, plus its wrap nonce
    let kp = KeyPair::generate();
    let plaintext = vec![0xabu8; 5 * CHUNK_SIZE];
    let container = encrypt_bytes(&plaintext, &kp.public_key).expect("encrypt");
    let mut arr = [0u8; 24];
    arr.copy_from_slice(&container[1095..1119]);
    assert!(seen.insert(arr), "duplicate wrap nonce in container");
    total += 1;
    let mut pos = 1169usize;
    while pos < container.len() {
        let mut nonce = [0u8; 24];
        nonce.copy_from_slice(&container[pos..pos + 24]);
        assert!(seen.insert(nonce), "duplicate chunk nonce");
        total += 1;
        let len_bytes: [u8; 4] = container[pos + 24..pos + 28].try_into().unwrap();
        let clen = u32::from_be_bytes(len_bytes) as usize;
        pos += 28 + clen;
    }
    assert!(total >= 10_006);
}
