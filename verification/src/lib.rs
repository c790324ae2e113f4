//! Consensus and ledger core of a proof-of-work chain: Merkle commitments,
//! difficulty retargeting, proof of work, the emission schedule, the unspent
//! output ledger, block acceptance and the peer synchronisation state machine.

pub mod blockchain;
pub mod bytes;
mod clock;
pub mod config;
pub mod consensus;
pub mod crypto;
pub mod database;
pub mod error;
pub mod network;
pub mod text;
pub mod wallet;
