//! The streaming encryptor and decryptor.
//!
//! Encryption encapsulates to the recipient's public key, derives the
//! key-encryption key, wraps a fresh file key, writes the header, and then
//! appends one chunk record per slice of up to `CHUNK_SIZE` plaintext
//! bytes, each under a fresh random nonce.  Decryption is its exact
//! mirror, stated once and for all by `spec_decrypt`: the contract of
//! `decrypt_bytes` says the result *is* that function of the input bytes
//! and the secret key, and the contract of `encrypt_bytes` says the
//! container it built decrypts, under every matching secret key, to the
//! original plaintext.

use vstd::prelude::*;
use vstd::slice::slice_subrange;
use crate::cipher::{aead_encrypt, aead_decrypt, aead_open};
use crate::codec::{
    Header,
    HeaderView,
    spec_parse_header,
    spec_be32_at,
    spec_chunk_record,
    spec_count_records,
    spec_container_record_count,
    encode_header,
    decode_header,
    append_bytes,
    append_chunk_record,
    read_be32,
    lemma_parse_encoded_header,
};
use crate::errors::CryptoError;
use crate::kdf::{hkdf_derive, hkdf_okm};
use crate::kem::{kyber_decap, kem_key_match, encapsulate, decapsulate};
use crate::params::{
    CHUNK_SIZE,
    KEY_LEN,
    NONCE_LEN,
    KEM_CIPHERTEXT_LEN,
    SECRET_KEY_LEN,
    PUBLIC_KEY_LEN,
    spec_kek_label,
    kek_label,
};
use crate::rng::os_random_bytes;
use crate::wrapkey::{wrap_key, unwrap_key};

verus! {

/// The plaintext that a string of chunk records decrypts to under `key`:
/// each record's ciphertext opened under its own nonce, in order, the
/// plaintexts concatenated.  Truncated framing and a tag that does not
/// verify are the two failures.
pub open spec fn spec_read_chunks(key: Seq<u8>, b: Seq<u8>) -> Result<Seq<u8>, CryptoError>
    decreases b.len(),
{
    if b.len() == 0 {
        Ok(Seq::empty())
    } else if b.len() < 28 {
        Err(CryptoError::Truncated)
    } else {
        let clen = spec_be32_at(b, 24) as int;
        if b.len() < 28 + clen {
            Err(CryptoError::Truncated)
        } else {
            match aead_open(key, b.subrange(0, 24), b.subrange(28, 28 + clen)) {
                None => Err(CryptoError::AeadFailure),
                Some(p) => match spec_read_chunks(key, b.subrange(28 + clen, b.len() as int)) {
                    Ok(rest) => Ok(p + rest),
                    Err(e) => Err(e),
                },
            }
        }
    }
}

/// What decrypting a container under a secret key yields: parse the
/// header, decapsulate, derive the key-encryption key, open the wrapped
/// file key, then read the chunk records.  Deterministic in the input
/// bytes and the key, so the decryptor's contract can simply equal it.
pub open spec fn spec_decrypt(input: Seq<u8>, secret_key: Seq<u8>) -> Result<Seq<u8>, CryptoError> {
    match spec_parse_header(input) {
        Err(e) => Err(e),
        Ok((h, off)) => {
            if secret_key.len() != SECRET_KEY_LEN {
                Err(CryptoError::KeyFormat)
            } else if h.kem_ciphertext.len() != KEM_CIPHERTEXT_LEN {
                Err(CryptoError::KeyFormat)
            } else {
                let kek = hkdf_okm(
                    kyber_decap(h.kem_ciphertext, secret_key),
                    spec_kek_label(),
                    KEY_LEN as nat,
                );
                match aead_open(kek, h.wrap_nonce, h.wrapped_file_key) {
                    None => Err(CryptoError::AeadFailure),
                    Some(fk) => {
                        if fk.len() != KEY_LEN {
                            Err(CryptoError::KeyFormat)
                        } else {
                            spec_read_chunks(fk, input.subrange(off, input.len() as int))
                        }
                    },
                }
            }
        },
    }
}

/// How many chunks a plaintext of `len` bytes is cut into: `len` divided
/// by the chunk size, rounded up; zero for an empty plaintext.
pub open spec fn spec_chunk_count(len: int) -> int {
    (len + CHUNK_SIZE - 1) / (CHUNK_SIZE as int)
}

/// A single well-formed record reads as its own chunk: the open of its
/// ciphertext, and a count of one.
proof fn lemma_read_single_record(key: Seq<u8>, nonce: Seq<u8>, ct: Seq<u8>)
    requires
        nonce.len() == NONCE_LEN,
        ct.len() < 0x100000000,
    ensures
        spec_chunk_record(nonce, ct).len() == 28 + ct.len(),
        spec_read_chunks(key, spec_chunk_record(nonce, ct)) == match aead_open(key, nonce, ct) {
            Some(p) => Ok::<Seq<u8>, CryptoError>(p),
            None => Err::<Seq<u8>, CryptoError>(CryptoError::AeadFailure),
        },
        spec_count_records(spec_chunk_record(nonce, ct)) == Some(1nat),
{
    let rec = spec_chunk_record(nonce, ct);
    crate::codec::lemma_be32_value(ct.len());
    assert(rec[24] == crate::codec::spec_be32(ct.len())[0] && rec[25] == crate::codec::spec_be32(
        ct.len(),
    )[1] && rec[26] == crate::codec::spec_be32(ct.len())[2] && rec[27] == crate::codec::spec_be32(
        ct.len(),
    )[3]);
    assert(spec_be32_at(rec, 24) == spec_be32_at(crate::codec::spec_be32(ct.len()), 0));
    assert(spec_be32_at(rec, 24) == ct.len());
    assert(rec.subrange(0, 24) =~= nonce);
    assert(rec.subrange(28, 28 + ct.len() as int) =~= ct);
    let tail = rec.subrange(28 + ct.len() as int, rec.len() as int);
    assert(tail =~= Seq::<u8>::empty());
    assert(spec_read_chunks(key, tail) == Ok::<Seq<u8>, CryptoError>(Seq::empty()));
    assert(spec_count_records(tail) == Some(0nat));
    assert(spec_count_records(rec) == Some(1nat));
    if aead_open(key, nonce, ct) is Some {
        let p = aead_open(key, nonce, ct)->Some_0;
        assert(p + Seq::<u8>::empty() =~= p);
    }
}

/// Records compose: reading `a + b` where `a` reads whole is reading `b`
/// after it, plaintexts concatenated and counts added.
proof fn lemma_chunks_append(key: Seq<u8>, a: Seq<u8>, b: Seq<u8>)
    requires
        spec_read_chunks(key, a) is Ok,
    ensures
        spec_count_records(a) is Some,
        spec_read_chunks(key, a + b) == match spec_read_chunks(key, b) {
            Ok(q) => Ok::<Seq<u8>, CryptoError>(spec_read_chunks(key, a)->Ok_0 + q),
            Err(e) => Err::<Seq<u8>, CryptoError>(e),
        },
        spec_count_records(a + b) == match spec_count_records(b) {
            Some(k) => Some((spec_count_records(a)->Some_0 + k) as nat),
            None => None::<nat>,
        },
    decreases a.len(),
{
    if a.len() == 0 {
        assert(a + b =~= b);
        assert(spec_read_chunks(key, a)->Ok_0 =~= Seq::<u8>::empty());
        if spec_read_chunks(key, b) is Ok {
            assert(spec_read_chunks(key, a)->Ok_0 + spec_read_chunks(key, b)->Ok_0
                =~= spec_read_chunks(key, b)->Ok_0);
        }
    } else {
        let clen = spec_be32_at(a, 24) as int;
        let a2 = a.subrange(28 + clen, a.len() as int);
        let ab = a + b;
        assert(ab[24] == a[24] && ab[25] == a[25] && ab[26] == a[26] && ab[27] == a[27]);
        assert(spec_be32_at(ab, 24) == clen);
        assert(ab.subrange(0, 24) =~= a.subrange(0, 24));
        assert(ab.subrange(28, 28 + clen) =~= a.subrange(28, 28 + clen));
        assert(ab.subrange(28 + clen, ab.len() as int) =~= a2 + b);
        lemma_chunks_append(key, a2, b);
        let p = aead_open(key, a.subrange(0, 24), a.subrange(28, 28 + clen))->Some_0;
        let ra = spec_read_chunks(key, a2)->Ok_0;
        assert(spec_read_chunks(key, a)->Ok_0 == p + ra);
        if spec_read_chunks(key, b) is Ok {
            let q = spec_read_chunks(key, b)->Ok_0;
            assert(p + (ra + q) =~= (p + ra) + q);
        }
    }
}

/// Start a container: encapsulate to the recipient, derive the
/// key-encryption key, wrap a fresh file key, and return the encoded
/// 1169-byte header together with the file key the chunks are to be
/// encrypted under.  Whatever string of chunk records a caller appends to
/// the header, decrypting the whole under any matching secret key is
/// reading those records under the returned file key.  Fails with a
/// key-format error exactly on a public key of the wrong size, else only
/// if the random source fails.
pub fn begin_container(public_key: &[u8]) -> (r: Result<(Vec<u8>, Vec<u8>), CryptoError>)
    ensures
        r matches Ok((header, file_key)) ==> header@.len() == 1169 && file_key@.len() == KEY_LEN,
        r matches Ok((header, file_key)) ==> (forall|rest: Seq<u8>|
            (#[trigger] spec_parse_header(header@ + rest)) matches Ok(p) && p.1 == 1169 && (
            header@ + rest).subrange(1169, (header@ + rest).len() as int) == rest),
        r matches Ok((header, file_key)) ==> (forall|sk: Seq<u8>, rest: Seq<u8>|
            kem_key_match(public_key@, sk) && sk.len() == SECRET_KEY_LEN
                ==> #[trigger] spec_decrypt(header@ + rest, sk) == spec_read_chunks(
                file_key@,
                rest,
            )),
        r is Err ==> r == Err::<(Vec<u8>, Vec<u8>), CryptoError>(CryptoError::KeyFormat) || r
            == Err::<(Vec<u8>, Vec<u8>), CryptoError>(CryptoError::Randomness),
        r == Err::<(Vec<u8>, Vec<u8>), CryptoError>(CryptoError::KeyFormat) <==> public_key@.len()
            != PUBLIC_KEY_LEN,
{
    let (kem_ct, shared) = match encapsulate(public_key) {
        Ok(p) => p,
        Err(e) => {
            return Err(e);
        },
    };
    let file_key = match os_random_bytes(KEY_LEN) {
        Ok(k) => k,
        Err(e) => {
            return Err(e);
        },
    };
    let label = kek_label();
    let kek = match hkdf_derive(shared.as_slice(), label.as_slice(), KEY_LEN) {
        Ok(k) => k,
        Err(_) => {
            return unreached();
        },
    };
    let (wrap_nonce, wrapped) = match wrap_key(kek.as_slice(), file_key.as_slice()) {
        Ok(p) => p,
        Err(e) => {
            return Err(e);
        },
    };
    let ghost g_kem_ct = kem_ct@;
    let ghost g_nonce = wrap_nonce@;
    let ghost g_wrapped = wrapped@;
    let header = Header { kem_ciphertext: kem_ct, wrap_nonce, wrapped_file_key: wrapped };
    let ghost hv = header@;
    let out = encode_header(&header);
    proof {
        assert(out@ == hv.spec_encode());
        assert forall|rest: Seq<u8>|
            (#[trigger] spec_parse_header(out@ + rest)) matches Ok(p) && p.1 == 1169 && (out@
                + rest).subrange(1169, (out@ + rest).len() as int) == rest by {
            lemma_parse_encoded_header(hv, rest);
        }
        assert forall|sk: Seq<u8>, rest: Seq<u8>|
            kem_key_match(public_key@, sk) && sk.len() == SECRET_KEY_LEN implies #[trigger] spec_decrypt(
            out@ + rest,
            sk,
        ) == spec_read_chunks(file_key@, rest) by {
            lemma_parse_encoded_header(hv, rest);
            assert(kyber_decap(g_kem_ct, sk) == shared@);
            assert(hkdf_okm(shared@, spec_kek_label(), KEY_LEN as nat) == kek@);
            assert(aead_open(kek@, g_nonce, g_wrapped) == Some(file_key@));
        }
    }
    Ok((out, file_key))
}

/// Encrypt one chunk of at most `CHUNK_SIZE` plaintext bytes under the
/// file key: a fresh random nonce, the AEAD ciphertext with its tag, and
/// the record framing around them.  Reading the returned record under the
/// same key yields the chunk back; the only possible failure is the
/// random source.
pub fn encrypt_chunk(file_key: &[u8], chunk: &[u8]) -> (r: Result<Vec<u8>, CryptoError>)
    requires
        file_key@.len() == KEY_LEN,
        chunk@.len() <= CHUNK_SIZE,
    ensures
        r matches Ok(rec) ==> spec_read_chunks(file_key@, rec@) == Ok::<Seq<u8>, CryptoError>(
            chunk@,
        ) && spec_count_records(rec@) == Some(1nat) && rec@.len() == 44 + chunk@.len(),
        r matches Err(e) ==> e == CryptoError::Randomness,
{
    let nonce = match os_random_bytes(NONCE_LEN) {
        Ok(x) => x,
        Err(e) => {
            return Err(e);
        },
    };
    let ct = match aead_encrypt(file_key, nonce.as_slice(), chunk) {
        Ok(c) => c,
        Err(_) => {
            return unreached();
        },
    };
    let mut rec: Vec<u8> = Vec::new();
    append_chunk_record(&mut rec, nonce.as_slice(), ct.as_slice());
    proof {
        lemma_read_single_record(file_key@, nonce@, ct@);
        assert(rec@ =~= spec_chunk_record(nonce@, ct@));
    }
    Ok(rec)
}

/// Encrypt a whole plaintext for a recipient public key, producing a
/// container.  On success the container decrypts, under every secret key
/// matching the public key, to exactly the plaintext; it carries one
/// chunk record per `CHUNK_SIZE` slice (none for an empty plaintext) and
/// costs exactly the 1169-byte header plus 44 bytes of nonce, length and
/// tag per chunk.  Fails with a key-format error exactly on a public key
/// of the wrong size, else only if the random source fails.
pub fn encrypt_bytes(plaintext: &[u8], public_key: &[u8]) -> (r: Result<Vec<u8>, CryptoError>)
    ensures
        r matches Ok(c) ==> (forall|sk: Seq<u8>|
            #[trigger] kem_key_match(public_key@, sk) && sk.len() == SECRET_KEY_LEN
                ==> spec_decrypt(c@, sk) == Ok::<Seq<u8>, CryptoError>(plaintext@)),
        r matches Ok(c) ==> spec_container_record_count(c@) == Ok::<nat, CryptoError>(
            spec_chunk_count(plaintext@.len() as int) as nat,
        ),
        r matches Ok(c) ==> c@.len() == 1169 + plaintext@.len() + 44 * spec_chunk_count(
            plaintext@.len() as int,
        ),
        r is Err ==> r == Err::<Vec<u8>, CryptoError>(CryptoError::KeyFormat) || r == Err::<
            Vec<u8>,
            CryptoError,
        >(CryptoError::Randomness),
        r == Err::<Vec<u8>, CryptoError>(CryptoError::KeyFormat) <==> public_key@.len()
            != PUBLIC_KEY_LEN,
{
    let (header, file_key) = match begin_container(public_key) {
        Ok(p) => p,
        Err(e) => {
            return Err(e);
        },
    };
    let mut out = header;
    let ghost header_bytes = out@;
    let n = plaintext.len();
    let mut pos: usize = 0;
    let ghost mut recs: Seq<u8> = Seq::empty();
    let ghost mut nrec: int = 0;
    proof {
        assert(header_bytes + recs =~= out@);
        assert(plaintext@.subrange(0, 0) =~= Seq::<u8>::empty());
        assert(spec_count_records(Seq::<u8>::empty()) == Some(0nat));
        assert(spec_read_chunks(file_key@, Seq::<u8>::empty()) == Ok::<Seq<u8>, CryptoError>(
            Seq::empty(),
        ));
    }
    while pos < n
        invariant
            pos <= n == plaintext@.len(),
            pos < n ==> pos % CHUNK_SIZE == 0,
            public_key@.len() == PUBLIC_KEY_LEN,
            file_key@.len() == KEY_LEN,
            out@ == header_bytes + recs,
            spec_read_chunks(file_key@, recs) == Ok::<Seq<u8>, CryptoError>(
                plaintext@.subrange(0, pos as int),
            ),
            spec_count_records(recs) == Some(nrec as nat),
            nrec == spec_chunk_count(pos as int),
            0 <= nrec,
            header_bytes.len() == 1169,
            recs.len() == pos + 44 * nrec,
            forall|rest: Seq<u8>|
                (#[trigger] spec_parse_header(header_bytes + rest)) matches Ok(p) && p.1 == 1169
                    && (header_bytes + rest).subrange(1169, (header_bytes + rest).len() as int)
                    == rest,
            forall|sk: Seq<u8>, rest: Seq<u8>|
                kem_key_match(public_key@, sk) && sk.len() == SECRET_KEY_LEN
                    ==> #[trigger] spec_decrypt(header_bytes + rest, sk) == spec_read_chunks(
                    file_key@,
                    rest,
                ),
        decreases n - pos,
    {
        let end = if n - pos > CHUNK_SIZE {
            pos + CHUNK_SIZE
        } else {
            n
        };
        let chunk = slice_subrange(plaintext, pos, end);
        let rec = match encrypt_chunk(file_key.as_slice(), chunk) {
            Ok(c) => c,
            Err(e) => {
                return Err(e);
            },
        };
        append_bytes(&mut out, rec.as_slice());
        proof {
            lemma_chunks_append(file_key@, recs, rec@);
            assert(plaintext@.subrange(0, end as int) =~= plaintext@.subrange(0, pos as int)
                + plaintext@.subrange(pos as int, end as int));
            assert(out@ =~= header_bytes + (recs + rec@));
            recs = recs + rec@;
            nrec = nrec + 1;
            if end < n {
                assert(end == pos + CHUNK_SIZE);
                assert(end % CHUNK_SIZE == 0) by {
                    vstd::arithmetic::div_mod::lemma_mod_add_multiples_vanish(
                        pos as int,
                        CHUNK_SIZE as int,
                    );
                }
            }
            let c = CHUNK_SIZE as int;
            let q = pos as int / c;
            assert(nrec == spec_chunk_count(end as int)) by {
                vstd::arithmetic::div_mod::lemma_fundamental_div_mod(pos as int, c);
                assert(pos as int == c * q);
                vstd::arithmetic::div_mod::lemma_fundamental_div_mod_converse(
                    pos as int + c - 1,
                    c,
                    q,
                    c - 1,
                );
                vstd::arithmetic::div_mod::lemma_fundamental_div_mod_converse(
                    end as int + c - 1,
                    c,
                    q + 1,
                    end as int - 1 - pos as int,
                );
            }
        }
        pos = end;
    }
    proof {
        assert(plaintext@.subrange(0, n as int) =~= plaintext@);
        assert(spec_parse_header(header_bytes + recs) is Ok);
        assert(out@ == header_bytes + recs);
        assert(out@.subrange(1169, out@.len() as int) == recs);
        assert forall|sk: Seq<u8>|
            #[trigger] kem_key_match(public_key@, sk) && sk.len()
                == SECRET_KEY_LEN implies spec_decrypt(out@, sk) == Ok::<Seq<u8>, CryptoError>(
            plaintext@,
        ) by {
            assert(spec_decrypt(header_bytes + recs, sk) == spec_read_chunks(file_key@, recs));
        }
    }
    Ok(out)
}

/// Decrypt a whole container under a secret key.  The result — plaintext
/// or error — is exactly `spec_decrypt` of the input bytes and the key:
/// the magic is validated before any key material is touched, a truncated
/// container or record is rejected as such, and any tag that does not
/// verify aborts the operation.
pub fn decrypt_bytes(input: &[u8], secret_key: &[u8]) -> (r: Result<Vec<u8>, CryptoError>)
    ensures
        match r {
            Ok(p) => spec_decrypt(input@, secret_key@) == Ok::<Seq<u8>, CryptoError>(p@),
            Err(e) => spec_decrypt(input@, secret_key@) == Err::<Seq<u8>, CryptoError>(e),
        },
{
    let (header, off) = match decode_header(input) {
        Ok(x) => x,
        Err(e) => {
            return Err(e);
        },
    };
    if secret_key.len() != SECRET_KEY_LEN {
        return Err(CryptoError::KeyFormat);
    }
    if header.kem_ciphertext.len() != KEM_CIPHERTEXT_LEN {
        return Err(CryptoError::KeyFormat);
    }
    let shared = match decapsulate(header.kem_ciphertext.as_slice(), secret_key) {
        Ok(s) => s,
        Err(_) => {
            return unreached();
        },
    };
    let label = kek_label();
    let kek = match hkdf_derive(shared.as_slice(), label.as_slice(), KEY_LEN) {
        Ok(k) => k,
        Err(_) => {
            return unreached();
        },
    };
    let file_key = match unwrap_key(
        kek.as_slice(),
        header.wrap_nonce.as_slice(),
        header.wrapped_file_key.as_slice(),
    ) {
        Ok(k) => k,
        Err(e) => {
            return Err(e);
        },
    };
    if file_key.len() != KEY_LEN {
        return Err(CryptoError::KeyFormat);
    }
    let n = input.len();
    let ghost tail0 = input@.subrange(off as int, n as int);
    proof {
        assert(spec_decrypt(input@, secret_key@) == spec_read_chunks(file_key@, tail0));
    }
    let mut pos: usize = off;
    let mut out: Vec<u8> = Vec::new();
    while pos < n
        invariant
            off <= pos <= n == input@.len(),
            file_key@.len() == KEY_LEN,
            spec_decrypt(input@, secret_key@) == spec_read_chunks(file_key@, tail0),
            spec_read_chunks(file_key@, tail0) == match spec_read_chunks(
                file_key@,
                input@.subrange(pos as int, n as int),
            ) {
                Ok(q) => Ok::<Seq<u8>, CryptoError>(out@ + q),
                Err(e) => Err::<Seq<u8>, CryptoError>(e),
            },
        decreases n - pos,
    {
        let ghost rest = input@.subrange(pos as int, n as int);
        if n - pos < 28 {
            proof {
                assert(rest.len() < 28 && rest.len() > 0);
            }
            return Err(CryptoError::Truncated);
        }
        let clen = read_be32(input, pos + 24) as usize;
        proof {
            assert(rest[24] == input@[pos + 24] && rest[25] == input@[pos + 25] && rest[26]
                == input@[pos + 26] && rest[27] == input@[pos + 27]);
            assert(spec_be32_at(rest, 24) == spec_be32_at(input@, pos + 24));
        }
        if n - pos - 28 < clen {
            proof {
                assert(rest.len() < 28 + clen);
            }
            return Err(CryptoError::Truncated);
        }
        let nonce = slice_subrange(input, pos, pos + 24);
        let ct = slice_subrange(input, pos + 28, pos + 28 + clen);
        proof {
            assert(nonce@ =~= rest.subrange(0, 24));
            assert(ct@ =~= rest.subrange(28, 28 + clen as int));
        }
        let pt = match aead_decrypt(file_key.as_slice(), nonce, ct) {
            Ok(p) => p,
            Err(e) => {
                return Err(e);
            },
        };
        let new_pos = pos + 28 + clen;
        proof {
            let rest2 = input@.subrange(new_pos as int, n as int);
            assert(rest.subrange(28 + clen as int, rest.len() as int) =~= rest2);
            if spec_read_chunks(file_key@, rest2) is Ok {
                let q = spec_read_chunks(file_key@, rest2)->Ok_0;
                assert(out@ + (pt@ + q) =~= (out@ + pt@) + q);
            }
        }
        append_bytes(&mut out, pt.as_slice());
        pos = new_pos;
    }
    proof {
        assert(input@.subrange(n as int, n as int) =~= Seq::<u8>::empty());
        assert(out@ + Seq::<u8>::empty() =~= out@);
    }
    Ok(out)
}

/// A container whose first five bytes differ from the magic is rejected
/// as such, whatever the secret key: no key material enters the decision.
pub proof fn lemma_bad_magic_rejected(input: Seq<u8>, secret_key: Seq<u8>)
    requires
        input.len() >= 5,
        input.subrange(0, 5) != crate::params::spec_magic(),
    ensures
        spec_decrypt(input, secret_key) == Err::<Seq<u8>, CryptoError>(CryptoError::BadMagic),
{
}

} // verus!
