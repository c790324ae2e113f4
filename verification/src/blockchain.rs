//! Blocks, the Merkle commitment over their transactions, the emission
//! schedule and block acceptance.

pub mod block;
pub mod chain;
pub mod merkle;
pub mod reward;
