//! Hash primitives, signatures and the Merkle tree with inclusion proofs.

pub mod hex;
pub mod merkle;
pub mod sha256;
pub mod sha512;
pub mod signatures;
