//! The digest, the signature check and the integer encodings that the
//! protocol's buffers are made of. Each is computed by an outside crate; this
//! file holds the calls and says what is relied on.

use byteorder::{BigEndian, WriteBytesExt};
use crate::types::{HashResult, PublicKey, Signature};
use ed25519_dalek::{Verifier, VerifyingKey};
use sha2::{Digest, Sha512_256};
use vstd::prelude::*;

verus! {

/// The SHA-512/256 digest of a byte string.
pub uninterp spec fn sha_512_256(data: Seq<u8>) -> Seq<u8>;

/// Whether `public_key` decodes to an Ed25519 key and `signature` is a
/// signature of `message` that verifies under that key. The two steps stand
/// behind the one name: a key that does not decode verifies nothing.
pub uninterp spec fn ed25519_verifies(
    message: Seq<u8>,
    public_key: Seq<u8>,
    signature: Seq<u8>,
) -> bool;

/// The sixteen bytes of `n`, most significant first.
pub open spec fn u128_be(n: u128) -> Seq<u8> {
    Seq::new(16, |i: int| ((n >> (((15 - i) * 8) as u128)) & 0xff) as u8)
}

/// The eight bytes of `n`, most significant first.
pub open spec fn u64_be(n: u64) -> Seq<u8> {
    Seq::new(8, |i: int| ((n >> (((7 - i) * 8) as u64)) & 0xff) as u8)
}

/// The four bytes of `n`, most significant first.
pub open spec fn u32_be(n: u32) -> Seq<u8> {
    Seq::new(4, |i: int| ((n >> (((3 - i) * 8) as u32)) & 0xff) as u8)
}

/// The sixteen bytes of `n` in two's complement, most significant first.
pub open spec fn i128_be(n: i128) -> Seq<u8> {
    u128_be(n as u128)
}

/// Calls `sha2::Sha512_256::digest`. Trusted: the result is the SHA-512/256
/// digest of `data`, which is a function of `data` alone and 32 bytes long.
#[verifier::external_body]
pub(crate) fn hash_buffer(data: &[u8]) -> (digest: HashResult)
    ensures
        digest@ == sha_512_256(data@),
        digest@.len() == 32,
{
    Sha512_256::digest(data).into()
}

/// Calls `ed25519_dalek::VerifyingKey::verify` on the key that
/// `VerifyingKey::from_bytes` decodes. Trusted: whether the key decodes and the
/// signature verifies is a function of the three byte strings alone.
#[verifier::external_body]
pub(crate) fn verify_signature(message: &[u8], public_key: &PublicKey, signature: &Signature) -> (ok:
    bool)
    ensures
        ok == ed25519_verifies(message@, public_key@, signature@),
{
    match VerifyingKey::from_bytes(public_key) {
        Ok(key) => key.verify(message, &ed25519_dalek::Signature::from_bytes(signature)).is_ok(),
        Err(_) => false,
    }
}

/// Calls `byteorder::WriteBytesExt::write_u128::<BigEndian>` on a `Vec<u8>`.
/// Trusted: it appends the sixteen big-endian bytes of `n`; writing to a
/// vector does not fail.
#[verifier::external_body]
pub(crate) fn write_u128_be(buf: &mut Vec<u8>, n: u128)
    ensures
        final(buf)@ == old(buf)@ + u128_be(n),
{
    buf.write_u128::<BigEndian>(n).unwrap();
}

/// Calls `byteorder::WriteBytesExt::write_i128::<BigEndian>` on a `Vec<u8>`.
/// Trusted: it appends the sixteen big-endian bytes of `n` in two's
/// complement; writing to a vector does not fail.
#[verifier::external_body]
pub(crate) fn write_i128_be(buf: &mut Vec<u8>, n: i128)
    ensures
        final(buf)@ == old(buf)@ + i128_be(n),
{
    buf.write_i128::<BigEndian>(n).unwrap();
}

/// Calls `byteorder::WriteBytesExt::write_u64::<BigEndian>` on a `Vec<u8>`.
/// Trusted: it appends the eight big-endian bytes of `n`; writing to a vector
/// does not fail.
#[verifier::external_body]
pub(crate) fn write_u64_be(buf: &mut Vec<u8>, n: u64)
    ensures
        final(buf)@ == old(buf)@ + u64_be(n),
{
    buf.write_u64::<BigEndian>(n).unwrap();
}

/// Calls `byteorder::WriteBytesExt::write_u32::<BigEndian>` on a `Vec<u8>`.
/// Trusted: it appends the four big-endian bytes of `n`; writing to a vector
/// does not fail.
#[verifier::external_body]
pub(crate) fn write_u32_be(buf: &mut Vec<u8>, n: u32)
    ensures
        final(buf)@ == old(buf)@ + u32_be(n),
{
    buf.write_u32::<BigEndian>(n).unwrap();
}

/// Appends the bytes of an array to a buffer.
pub fn extend_from_array<const N: usize>(buf: &mut Vec<u8>, bytes: &[u8; N])
    ensures
        final(buf)@ == old(buf)@ + bytes@,
{
    let mut i: usize = 0;
    while i < N
        invariant
            0 <= i <= N,
            buf@ == old(buf)@ + bytes@.subrange(0, i as int),
        decreases N - i,
    {
        buf.push(bytes[i]);
        assert(bytes@.subrange(0, i + 1) =~= bytes@.subrange(0, i as int).push(bytes@[i as int]));
        assert(buf@ =~= old(buf)@ + bytes@.subrange(0, i + 1));
        i += 1;
    }
    assert(bytes@.subrange(0, N as int) =~= bytes@);
}

/// Appends the bytes of a vector to a buffer.
pub fn extend_from_vec(buf: &mut Vec<u8>, bytes: &Vec<u8>)
    ensures
        final(buf)@ == old(buf)@ + bytes@,
{
    let mut i: usize = 0;
    while i < bytes.len()
        invariant
            0 <= i <= bytes.len(),
            buf@ == old(buf)@ + bytes@.subrange(0, i as int),
        decreases bytes.len() - i,
    {
        buf.push(bytes[i]);
        assert(bytes@.subrange(0, i + 1) =~= bytes@.subrange(0, i as int).push(bytes@[i as int]));
        assert(buf@ =~= old(buf)@ + bytes@.subrange(0, i + 1));
        i += 1;
    }
    assert(bytes@.subrange(0, bytes.len() as int) =~= bytes@);
}

} // verus!
