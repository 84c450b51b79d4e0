//! The container codec: the binary header and the chunk-record framing,
//! with fixed-width big-endian length prefixes.
//!
//! A container is `header + chunk record*`.  The header is the 5-byte
//! magic, a 2-byte length and the KEM ciphertext, the 24-byte wrap nonce,
//! and a 2-byte length and the wrapped file key.  A chunk record is a
//! 24-byte nonce, a 4-byte ciphertext length and that many ciphertext
//! bytes.  Decoding validates the magic before anything else and fails on
//! a container that ends before a declared field does.

use vstd::prelude::*;
use vstd::slice::{slice_subrange, slice_to_vec};
use crate::errors::CryptoError;
use crate::params::{NONCE_LEN, spec_magic};

verus! {

/// The big-endian 2-byte encoding of `n % 0x10000`.
pub open spec fn spec_be16(n: nat) -> Seq<u8> {
    seq![((n / 256) % 256) as u8, (n % 256) as u8]
}

/// The big-endian 4-byte encoding of `n % 0x100000000`.
pub open spec fn spec_be32(n: nat) -> Seq<u8> {
    seq![
        ((n / 0x1000000) % 256) as u8,
        ((n / 0x10000) % 256) as u8,
        ((n / 256) % 256) as u8,
        (n % 256) as u8,
    ]
}

/// The value of the 2 bytes at `i` read big-endian.
pub open spec fn spec_be16_at(b: Seq<u8>, i: int) -> nat
    recommends
        0 <= i,
        i + 2 <= b.len(),
{
    (b[i] as nat) * 256 + (b[i + 1] as nat)
}

/// The value of the 4 bytes at `i` read big-endian.
pub open spec fn spec_be32_at(b: Seq<u8>, i: int) -> nat
    recommends
        0 <= i,
        i + 4 <= b.len(),
{
    (b[i] as nat) * 0x1000000 + (b[i + 1] as nat) * 0x10000 + (b[i + 2] as nat) * 256 + (b[i
        + 3] as nat)
}

/// Reading back a 2-byte encoding yields the encoded value.
pub proof fn lemma_be16_value(n: nat)
    requires
        n < 0x10000,
    ensures
        spec_be16(n).len() == 2,
        spec_be16_at(spec_be16(n), 0) == n,
{
    assert(n / 256 < 256);
    assert((n / 256) % 256 == n / 256);
    assert(n / 256 * 256 + n % 256 == n) by {
        vstd::arithmetic::div_mod::lemma_fundamental_div_mod(n as int, 256);
    }
}

/// Reading back a 4-byte encoding yields the encoded value.
pub proof fn lemma_be32_value(n: nat)
    requires
        n < 0x100000000,
    ensures
        spec_be32(n).len() == 4,
        spec_be32_at(spec_be32(n), 0) == n,
{
    assert(n / 0x1000000 < 256);
    assert((n / 0x1000000) % 256 == n / 0x1000000);
    assert(n / 0x1000000 * 0x1000000 + (n % 0x1000000) == n) by {
        vstd::arithmetic::div_mod::lemma_fundamental_div_mod(n as int, 0x1000000);
    }
    assert((n / 0x10000) % 256 == (n % 0x1000000) / 0x10000) by {
        vstd::arithmetic::div_mod::lemma_truncate_middle(n as int, 0x10000, 256);
    }
    assert((n % 0x1000000) / 0x10000 * 0x10000 + (n % 0x10000) == n % 0x1000000) by {
        vstd::arithmetic::div_mod::lemma_fundamental_div_mod((n % 0x1000000) as int, 0x10000);
        vstd::arithmetic::div_mod::lemma_mod_mod(n as int, 0x10000, 256);
    }
    assert((n / 256) % 256 == (n % 0x10000) / 256) by {
        vstd::arithmetic::div_mod::lemma_truncate_middle(n as int, 256, 256);
    }
    assert((n % 0x10000) / 256 * 256 + (n % 256) == n % 0x10000) by {
        vstd::arithmetic::div_mod::lemma_fundamental_div_mod((n % 0x10000) as int, 256);
        vstd::arithmetic::div_mod::lemma_mod_mod(n as int, 256, 256);
    }
}

/// Append the big-endian 2-byte encoding of `n`.
pub fn push_be16(out: &mut Vec<u8>, n: u16)
    ensures
        final(out)@ == old(out)@ + spec_be16(n as nat),
{
    out.push((n / 256) as u8);
    out.push((n % 256) as u8);
    proof {
        assert(out@ =~= old(out)@ + spec_be16(n as nat));
    }
}

/// Append the big-endian 4-byte encoding of `n`.
pub fn push_be32(out: &mut Vec<u8>, n: u32)
    ensures
        final(out)@ == old(out)@ + spec_be32(n as nat),
{
    out.push((n / 0x1000000) as u8);
    out.push((n / 0x10000 % 256) as u8);
    out.push((n / 256 % 256) as u8);
    out.push((n % 256) as u8);
    proof {
        assert(out@ =~= old(out)@ + spec_be32(n as nat));
    }
}

/// Read the 2 bytes at `i` as a big-endian integer.
pub fn read_be16(b: &[u8], i: usize) -> (r: u16)
    requires
        i + 2 <= b@.len(),
    ensures
        r as nat == spec_be16_at(b@, i as int),
{
    (b[i] as u16) * 256 + (b[i + 1] as u16)
}

/// Read the 4 bytes at `i` as a big-endian integer.
pub fn read_be32(b: &[u8], i: usize) -> (r: u32)
    requires
        i + 4 <= b@.len(),
    ensures
        r as nat == spec_be32_at(b@, i as int),
{
    (b[i] as u32) * 0x1000000 + (b[i + 1] as u32) * 0x10000 + (b[i + 2] as u32) * 256 + (b[i
        + 3] as u32)
}

/// Append all of `data`.
pub fn append_bytes(out: &mut Vec<u8>, data: &[u8])
    ensures
        final(out)@ == old(out)@ + data@,
{
    let mut i: usize = 0;
    while i < data.len()
        invariant
            i <= data@.len(),
            out@ == old(out)@ + data@.subrange(0, i as int),
        decreases data@.len() - i,
    {
        out.push(data[i]);
        i = i + 1;
        proof {
            assert(out@ =~= old(out)@ + data@.subrange(0, i as int));
        }
    }
    proof {
        assert(data@.subrange(0, data@.len() as int) =~= data@);
    }
}

/// The decoded header of a container.
#[derive(Debug)]
pub struct Header {
    /// The KEM ciphertext that transports the shared secret.
    pub kem_ciphertext: Vec<u8>,
    /// The 24-byte nonce under which the file key was wrapped.
    pub wrap_nonce: Vec<u8>,
    /// The AEAD-wrapped file key (ciphertext plus tag).
    pub wrapped_file_key: Vec<u8>,
}

/// The mathematical content of a header.
pub ghost struct HeaderView {
    /// The KEM ciphertext bytes.
    pub kem_ciphertext: Seq<u8>,
    /// The wrap nonce bytes.
    pub wrap_nonce: Seq<u8>,
    /// The wrapped file key bytes.
    pub wrapped_file_key: Seq<u8>,
}

impl View for Header {
    type V = HeaderView;

    open spec fn view(&self) -> HeaderView {
        HeaderView {
            kem_ciphertext: self.kem_ciphertext@,
            wrap_nonce: self.wrap_nonce@,
            wrapped_file_key: self.wrapped_file_key@,
        }
    }
}

impl HeaderView {
    /// The variable fields fit their 2-byte length prefixes and the nonce
    /// has its fixed width.
    pub open spec fn wf(self) -> bool {
        self.kem_ciphertext.len() <= 0xffff && self.wrap_nonce.len() == NONCE_LEN
            && self.wrapped_file_key.len() <= 0xffff
    }

    /// The byte encoding of this header.
    pub open spec fn spec_encode(self) -> Seq<u8> {
        spec_magic() + spec_be16(self.kem_ciphertext.len()) + self.kem_ciphertext
            + self.wrap_nonce + spec_be16(self.wrapped_file_key.len()) + self.wrapped_file_key
    }
}

/// Parse a header from the front of `b`: the header and the offset where
/// the chunk records begin.  The magic is validated before anything else;
/// a byte string that ends before a declared field does is truncated.
pub open spec fn spec_parse_header(b: Seq<u8>) -> Result<(HeaderView, int), CryptoError> {
    if b.len() < 5 {
        Err(CryptoError::Truncated)
    } else if b.subrange(0, 5) != spec_magic() {
        Err(CryptoError::BadMagic)
    } else if b.len() < 7 {
        Err(CryptoError::Truncated)
    } else {
        let ct_len = spec_be16_at(b, 5) as int;
        if b.len() < 7 + ct_len + 26 {
            Err(CryptoError::Truncated)
        } else {
            let wrap_len = spec_be16_at(b, 7 + ct_len + 24) as int;
            let end = 7 + ct_len + 26 + wrap_len;
            if b.len() < end {
                Err(CryptoError::Truncated)
            } else {
                Ok(
                    (
                        HeaderView {
                            kem_ciphertext: b.subrange(7, 7 + ct_len),
                            wrap_nonce: b.subrange(7 + ct_len, 7 + ct_len + 24),
                            wrapped_file_key: b.subrange(7 + ct_len + 26, end),
                        },
                        end,
                    ),
                )
            }
        }
    }
}

/// Whether the first five bytes are the magic.
fn magic_matches(input: &[u8]) -> (r: bool)
    requires
        input@.len() >= 5,
    ensures
        r <==> input@.subrange(0, 5) == spec_magic(),
{
    let r = input[0] == 0x52 && input[1] == 0x4b && input[2] == 0x50 && input[3] == 0x51
        && input[4] == 0x31;
    proof {
        let s = input@.subrange(0, 5);
        assert(s[0] == input@[0] && s[1] == input@[1] && s[2] == input@[2] && s[3] == input@[3]
            && s[4] == input@[4]);
        if r {
            assert(s =~= spec_magic());
        } else {
            if s == spec_magic() {
                assert(s[0] == 0x52 && s[1] == 0x4b && s[2] == 0x50 && s[3] == 0x51 && s[4]
                    == 0x31);
                assert(false);
            }
        }
    }
    r
}

/// Encode a header.
pub fn encode_header(h: &Header) -> (r: Vec<u8>)
    requires
        h@.wf(),
    ensures
        r@ == h@.spec_encode(),
{
    let mut out = crate::params::magic_bytes();
    push_be16(&mut out, h.kem_ciphertext.len() as u16);
    append_bytes(&mut out, h.kem_ciphertext.as_slice());
    append_bytes(&mut out, h.wrap_nonce.as_slice());
    push_be16(&mut out, h.wrapped_file_key.len() as u16);
    append_bytes(&mut out, h.wrapped_file_key.as_slice());
    proof {
        assert(out@ =~= h@.spec_encode());
    }
    out
}

/// Decode the header at the front of a container; on success also return
/// the offset where the chunk records begin.
pub fn decode_header(input: &[u8]) -> (r: Result<(Header, usize), CryptoError>)
    ensures
        match r {
            Ok((h, off)) => spec_parse_header(input@) == Ok::<(HeaderView, int), CryptoError>(
                (h@, off as int),
            ) && h@.wf() && off <= input@.len(),
            Err(e) => spec_parse_header(input@) == Err::<(HeaderView, int), CryptoError>(e),
        },
{
    let n = input.len();
    if n < 5 {
        return Err(CryptoError::Truncated);
    }
    if !magic_matches(input) {
        return Err(CryptoError::BadMagic);
    }
    if n < 7 {
        return Err(CryptoError::Truncated);
    }
    let ct_len = read_be16(input, 5) as usize;
    if n < 7 + ct_len + 26 {
        return Err(CryptoError::Truncated);
    }
    let wrap_len = read_be16(input, 7 + ct_len + 24) as usize;
    let end = 7 + ct_len + 26 + wrap_len;
    if n < end {
        return Err(CryptoError::Truncated);
    }
    let kem_ciphertext = slice_to_vec(slice_subrange(input, 7, 7 + ct_len));
    let wrap_nonce = slice_to_vec(slice_subrange(input, 7 + ct_len, 7 + ct_len + 24));
    let wrapped_file_key = slice_to_vec(slice_subrange(input, 7 + ct_len + 26, end));
    let h = Header { kem_ciphertext, wrap_nonce, wrapped_file_key };
    Ok((h, end))
}

/// One chunk record: the nonce, the 4-byte big-endian ciphertext length,
/// and the ciphertext with its tag.
pub open spec fn spec_chunk_record(nonce: Seq<u8>, ct: Seq<u8>) -> Seq<u8> {
    nonce + spec_be32(ct.len()) + ct
}

/// Append one chunk record.
pub fn append_chunk_record(out: &mut Vec<u8>, nonce: &[u8], ct: &[u8])
    requires
        nonce@.len() == NONCE_LEN,
        ct@.len() < 0x100000000,
    ensures
        final(out)@ == old(out)@ + spec_chunk_record(nonce@, ct@),
{
    append_bytes(out, nonce);
    push_be32(out, ct.len() as u32);
    append_bytes(out, ct);
    proof {
        assert(out@ =~= old(out)@ + spec_chunk_record(nonce@, ct@));
    }
}

/// How many well-framed chunk records `b` consists of, or nothing if `b`
/// is truncated.  Framing only; no cryptography.
pub open spec fn spec_count_records(b: Seq<u8>) -> Option<nat>
    decreases b.len(),
{
    if b.len() == 0 {
        Some(0nat)
    } else if b.len() < 28 {
        None
    } else {
        let clen = spec_be32_at(b, 24) as int;
        if b.len() < 28 + clen {
            None
        } else {
            match spec_count_records(b.subrange(28 + clen, b.len() as int)) {
                Some(k) => Some(k + 1),
                None => None,
            }
        }
    }
}

/// The number of chunk records of a container, after its header.
pub open spec fn spec_container_record_count(b: Seq<u8>) -> Result<nat, CryptoError> {
    match spec_parse_header(b) {
        Err(e) => Err(e),
        Ok((h, off)) => match spec_count_records(b.subrange(off, b.len() as int)) {
            Some(k) => Ok(k),
            None => Err(CryptoError::Truncated),
        },
    }
}

/// Count the chunk records of a container: parse the header, then walk the
/// record framing.  Fails like decoding does on a bad magic or a truncated
/// container, but performs no cryptography.
pub fn count_chunk_records(container: &[u8]) -> (r: Result<usize, CryptoError>)
    ensures
        match r {
            Ok(k) => spec_container_record_count(container@) == Ok::<nat, CryptoError>(k as nat),
            Err(e) => spec_container_record_count(container@) == Err::<nat, CryptoError>(e),
        },
{
    let n = container.len();
    let off = match decode_header(container) {
        Ok((_h, off)) => off,
        Err(e) => {
            return Err(e);
        },
    };
    let ghost whole = container@.subrange(off as int, n as int);
    let mut pos: usize = off;
    let mut count: usize = 0;
    loop
        invariant
            off <= pos <= n == container@.len(),
            count * 28 <= pos - off,
            spec_count_records(whole) == match spec_count_records(
                container@.subrange(pos as int, n as int),
            ) {
                Some(k) => Some((count + k) as nat),
                None => None::<nat>,
            },
        ensures
            pos == n || spec_count_records(whole) is None,
        decreases n - pos,
    {
        if pos == n {
            break ;
        }
        let ghost rest = container@.subrange(pos as int, n as int);
        if n - pos < 28 {
            proof {
                assert(rest.len() < 28 && rest.len() > 0);
            }
            break ;
        }
        let clen = read_be32(container, pos + 24) as usize;
        proof {
            assert(rest[24] == container@[pos + 24] && rest[25] == container@[pos + 25]
                && rest[26] == container@[pos + 26] && rest[27] == container@[pos + 27]);
            assert(spec_be32_at(rest, 24) == spec_be32_at(container@, pos + 24));
        }
        if n - pos - 28 < clen {
            proof {
                assert(rest.len() < 28 + clen);
            }
            break ;
        }
        let new_pos = pos + 28 + clen;
        proof {
            assert(container@.subrange(new_pos as int, n as int) =~= rest.subrange(
                28 + clen as int,
                rest.len() as int,
            ));
        }
        pos = new_pos;
        count = count + 1;
    }
    if pos == n {
        proof {
            assert(container@.subrange(n as int, n as int) =~= Seq::<u8>::empty());
        }
        Ok(count)
    } else {
        Err(CryptoError::Truncated)
    }
}

/// Reading the records of an encoding of a header followed by anything
/// finds that header, and leaves exactly the rest.
pub proof fn lemma_parse_encoded_header(h: HeaderView, rest: Seq<u8>)
    requires
        h.wf(),
    ensures
        spec_parse_header(h.spec_encode() + rest) == Ok::<(HeaderView, int), CryptoError>(
            (h, h.spec_encode().len() as int),
        ),
        (h.spec_encode() + rest).subrange(
            h.spec_encode().len() as int,
            (h.spec_encode() + rest).len() as int,
        ) == rest,
{
    let e = h.spec_encode();
    let b = e + rest;
    let ctl = h.kem_ciphertext.len() as int;
    let wl = h.wrapped_file_key.len() as int;
    assert(e.len() == 33 + ctl + wl);
    lemma_be16_value(h.kem_ciphertext.len());
    lemma_be16_value(h.wrapped_file_key.len());
    assert(b.subrange(0, 5) =~= spec_magic());
    assert(b[5] == spec_be16(h.kem_ciphertext.len())[0] && b[6] == spec_be16(
        h.kem_ciphertext.len(),
    )[1]);
    assert(spec_be16_at(b, 5) == spec_be16_at(spec_be16(h.kem_ciphertext.len()), 0));
    assert(spec_be16_at(b, 5) == ctl);
    assert(b[7 + ctl + 24] == spec_be16(h.wrapped_file_key.len())[0] && b[7 + ctl + 25]
        == spec_be16(h.wrapped_file_key.len())[1]);
    assert(spec_be16_at(b, 7 + ctl + 24) == spec_be16_at(spec_be16(h.wrapped_file_key.len()), 0));
    assert(spec_be16_at(b, 7 + ctl + 24) == wl);
    assert(b.subrange(7, 7 + ctl) =~= h.kem_ciphertext);
    assert(b.subrange(7 + ctl, 7 + ctl + 24) =~= h.wrap_nonce);
    assert(b.subrange(7 + ctl + 26, 33 + ctl + wl) =~= h.wrapped_file_key);
    assert(spec_parse_header(b) == Ok::<(HeaderView, int), CryptoError>((h, e.len() as int)));
    assert(b.subrange(e.len() as int, b.len() as int) =~= rest);
}

} // verus!
