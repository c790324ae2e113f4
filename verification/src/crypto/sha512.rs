//! SHA-512 and the hash functions built from it.

use sha2::Digest;
use vstd::prelude::*;

verus! {

/// The SHA-512 digest of a byte string.
pub uninterp spec fn sha512(data: Seq<u8>) -> [u8; 64];

/// Calls `sha2::Sha512::digest`, the one-shot SHA-512 of `data`.
/// Trusted: the result is the digest named by [`sha512`], 64 bytes long.
#[verifier::external_body]
pub(crate) fn sha512_digest(data: &[u8]) -> (out: [u8; 64])
    ensures
        out == sha512(data@),
{
    sha2::Sha512::digest(data).into()
}

/// Two different byte strings with the same SHA-512 digest.
pub open spec fn sha512_collision(a: Seq<u8>, b: Seq<u8>) -> bool {
    a != b && sha512(a)@ == sha512(b)@
}

/// Whether any SHA-512 collision exists at all.
pub open spec fn sha512_collides() -> bool {
    exists|a: Seq<u8>, b: Seq<u8>| sha512_collision(a, b)
}

/// The BLAKE3 hash of a byte string.
pub uninterp spec fn blake3(data: Seq<u8>) -> [u8; 32];

/// Calls `blake3::hash` and takes the 32 bytes of the result.
/// Trusted: the result is the hash named by [`blake3`].
#[verifier::external_body]
fn blake3_digest(data: &[u8]) -> (out: [u8; 32])
    ensures
        out == blake3(data@),
{
    *blake3::hash(data).as_bytes()
}

/// SHA-512 applied twice, and its variants.
#[derive(Clone, Copy)]
pub struct DoubleSha512;

impl DoubleSha512 {
    /// The double SHA-512 of a byte string.
    pub open spec fn double(data: Seq<u8>) -> Seq<u8> {
        sha512(sha512(data)@)@
    }

    /// The double SHA-512 with a BLAKE3 hash of the first digest between the
    /// two.
    pub open spec fn mixed(data: Seq<u8>) -> Seq<u8> {
        sha512(blake3(sha512(data)@)@)@
    }

    /// Double SHA-512.
    pub fn hash(data: &[u8]) -> (digest: [u8; 64])
        ensures
            digest@ == Self::double(data@),
    {
        let first = sha512_digest(data);
        sha512_digest(first.as_slice())
    }

    /// Double SHA-512 of every chunk, in order.
    pub fn hash_batch(data_chunks: &[&[u8]]) -> (digests: Vec<[u8; 64]>)
        ensures
            digests@.len() == data_chunks@.len(),
            forall|i: int|
                0 <= i < digests@.len() ==> digests@[i]@ == Self::double(data_chunks@[i]@),
    {
        let mut digests: Vec<[u8; 64]> = Vec::new();
        let mut i: usize = 0;
        while i < data_chunks.len()
            invariant
                i <= data_chunks.len(),
                digests@.len() == i,
                forall|j: int| 0 <= j < i ==> digests@[j]@ == Self::double(data_chunks@[j]@),
            decreases data_chunks.len() - i,
        {
            digests.push(Self::hash(data_chunks[i]));
            i += 1;
        }
        digests
    }

    /// Double SHA-512 with BLAKE3 mixed in between.
    pub fn hash_asic_resistant(data: &[u8]) -> (digest: [u8; 64])
        ensures
            digest@ == Self::mixed(data@),
    {
        let first = sha512_digest(data);
        let blake_mixed = blake3_digest(first.as_slice());
        sha512_digest(blake_mixed.as_slice())
    }
}

} // verus!
