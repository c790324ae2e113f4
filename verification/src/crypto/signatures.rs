//! Ed25519 signatures over byte strings.

use crate::crypto::hex::{hex_encode, hex_text};
use crate::crypto::sha512::{sha512, sha512_digest};
use ed25519_dalek::Verifier;
use vstd::prelude::*;

verus! {

/// The error type of the Ed25519 library.
#[verifier::external_type_specification]
#[verifier::external_body]
pub struct ExSignatureError(ed25519_dalek::SignatureError);

/// Whether the Ed25519 library accepts `signature` for `message` under the
/// encoded public key.
pub uninterp spec fn ed25519_accepts(public_key: Seq<u8>, message: Seq<u8>, signature: Seq<u8>) -> bool;

/// Decodes the key with `ed25519_dalek::VerifyingKey::from_bytes` and the
/// signature with `ed25519_dalek::Signature::from_bytes`, then calls the key's
/// `verify`. Trusted: the call succeeds exactly where [`ed25519_accepts`]
/// holds; a key that does not decode is an error too.
#[verifier::external_body]
fn ed25519_verify(public_key: &[u8; 32], message: &[u8], signature: &[u8; 64]) -> (res: Result<
    (),
    ed25519_dalek::SignatureError,
>)
    ensures
        res is Ok <==> ed25519_accepts(public_key@, message@, signature@),
{
    let key = ed25519_dalek::VerifyingKey::from_bytes(public_key)?;
    key.verify(message, &ed25519_dalek::Signature::from_bytes(signature))
}

/// Why a signature was not accepted.
#[derive(Debug, Clone, Copy, PartialEq, Eq, Structural)]
pub enum SignatureFault {
    /// The public key is not 32 bytes long.
    KeyLength,
    /// The signature is not 64 bytes long.
    SignatureLength,
    /// The library rejected the key or the signature.
    Rejected,
}

/// A signature with the public key that made it.
#[derive(Debug, Clone)]
pub struct SignatureData {
    pub signature: Vec<u8>,
    pub public_key: Vec<u8>,
}

fn key_array(bytes: &Vec<u8>) -> (array: [u8; 32])
    requires
        bytes@.len() == 32,
    ensures
        array@ == bytes@,
{
    let mut array: [u8; 32] = [0u8; 32];
    let mut i: usize = 0;
    while i < 32
        invariant
            i <= 32,
            bytes@.len() == 32,
            forall|j: int| 0 <= j < i ==> array@[j] == bytes@[j],
        decreases 32 - i,
    {
        array[i] = bytes[i];
        i += 1;
    }
    assert(array@ =~= bytes@);
    array
}

fn signature_array(bytes: &Vec<u8>) -> (array: [u8; 64])
    requires
        bytes@.len() == 64,
    ensures
        array@ == bytes@,
{
    let mut array: [u8; 64] = [0u8; 64];
    let mut i: usize = 0;
    while i < 64
        invariant
            i <= 64,
            bytes@.len() == 64,
            forall|j: int| 0 <= j < i ==> array@[j] == bytes@[j],
        decreases 64 - i,
    {
        array[i] = bytes[i];
        i += 1;
    }
    assert(array@ =~= bytes@);
    array
}

impl SignatureData {
    /// Whether the signature is one for `message`: key and signature have
    /// their lengths and the library accepts them.
    pub open spec fn signs(&self, message: Seq<u8>) -> bool {
        &&& self.public_key@.len() == 32
        &&& self.signature@.len() == 64
        &&& ed25519_accepts(self.public_key@, message, self.signature@)
    }

    pub fn new(signature: Vec<u8>, public_key: Vec<u8>) -> (data: Self)
        ensures
            data.signature == signature,
            data.public_key == public_key,
    {
        SignatureData { signature, public_key }
    }

    /// Checks the signature over `message`.
    pub fn verify(&self, message: &[u8]) -> (res: Result<(), SignatureFault>)
        ensures
            res is Ok <==> self.signs(message@),
            res == Err::<(), SignatureFault>(SignatureFault::KeyLength) <==> self.public_key@.len()
                != 32,
            res == Err::<(), SignatureFault>(SignatureFault::SignatureLength) <==> (
            self.public_key@.len() == 32 && self.signature@.len() != 64),
    {
        if self.public_key.len() != 32 {
            return Err(SignatureFault::KeyLength);
        }
        if self.signature.len() != 64 {
            return Err(SignatureFault::SignatureLength);
        }
        let public_key = key_array(&self.public_key);
        let signature = signature_array(&self.signature);
        match ed25519_verify(&public_key, message, &signature) {
            Ok(()) => Ok(()),
            Err(_) => Err(SignatureFault::Rejected),
        }
    }
}

/// SHA-512 of a byte string.
pub fn sha512_hash(data: &[u8]) -> (digest: [u8; 64])
    ensures
        digest@ == sha512(data@)@,
{
    sha512_digest(data)
}

/// SHA-512 of a byte string as lowercase hexadecimal text.
pub fn sha512_hash_string(data: &[u8]) -> (text: String)
    ensures
        text@ == hex_text(sha512(data@)@),
{
    let digest = sha512_digest(data);
    hex_encode(digest.as_slice())
}

} // verus!
