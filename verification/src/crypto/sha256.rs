//! SHA-256.

use sha2::Digest;
use vstd::prelude::*;

verus! {

/// The SHA-256 digest of a byte string.
pub uninterp spec fn sha256(data: Seq<u8>) -> [u8; 32];

/// Calls `sha2::Sha256::digest`, the one-shot SHA-256 of `data`.
/// Trusted: the result is the digest named by [`sha256`], 32 bytes long.
#[verifier::external_body]
pub(crate) fn sha256_digest(data: &[u8]) -> (out: [u8; 32])
    ensures
        out == sha256(data@),
{
    sha2::Sha256::digest(data).into()
}

} // verus!
