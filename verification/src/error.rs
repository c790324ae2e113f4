//! The error of the node as a whole: what went wrong and in which part.

use crate::blockchain::chain::BlockRejection;
use crate::consensus::ConsensusError;
use crate::database::utxo_set::UTXOError;
use crate::network::protocol::ProtocolError;
use vstd::prelude::*;
use vstd::string::StringExecFns;

verus! {

#[derive(Debug)]
pub enum BlockchainError {
    NetworkError(String),
    DatabaseError(String),
    ConsensusError(String),
    SerializationError(String),
    CryptoError(String),
    ValidationError(String),
    IoError(String),
    ConfigError(String),
    WalletError(String),
    UtxoError(String),
}

impl BlockchainError {
    /// The part of the node and the detail, in words.
    pub open spec fn text(&self) -> Seq<char> {
        match *self {
            BlockchainError::NetworkError(detail) => "Network error: "@ + detail@,
            BlockchainError::DatabaseError(detail) => "Database error: "@ + detail@,
            BlockchainError::ConsensusError(detail) => "Consensus error: "@ + detail@,
            BlockchainError::SerializationError(detail) => "Serialization error: "@ + detail@,
            BlockchainError::CryptoError(detail) => "Cryptographic error: "@ + detail@,
            BlockchainError::ValidationError(detail) => "Validation error: "@ + detail@,
            BlockchainError::IoError(detail) => "IO error: "@ + detail@,
            BlockchainError::ConfigError(detail) => "Configuration error: "@ + detail@,
            BlockchainError::WalletError(detail) => "Wallet error: "@ + detail@,
            BlockchainError::UtxoError(detail) => "UTXO error: "@ + detail@,
        }
    }

    /// The error in words.
    pub fn message(&self) -> (text: String)
        ensures
            text@ == self.text(),
    {
        match self {
            BlockchainError::NetworkError(detail) => "Network error: ".to_owned().concat(
                detail.as_str(),
            ),
            BlockchainError::DatabaseError(detail) => "Database error: ".to_owned().concat(
                detail.as_str(),
            ),
            BlockchainError::ConsensusError(detail) => "Consensus error: ".to_owned().concat(
                detail.as_str(),
            ),
            BlockchainError::SerializationError(detail) => "Serialization error: ".to_owned().concat(
                detail.as_str(),
            ),
            BlockchainError::CryptoError(detail) => "Cryptographic error: ".to_owned().concat(
                detail.as_str(),
            ),
            BlockchainError::ValidationError(detail) => "Validation error: ".to_owned().concat(
                detail.as_str(),
            ),
            BlockchainError::IoError(detail) => "IO error: ".to_owned().concat(detail.as_str()),
            BlockchainError::ConfigError(detail) => "Configuration error: ".to_owned().concat(
                detail.as_str(),
            ),
            BlockchainError::WalletError(detail) => "Wallet error: ".to_owned().concat(
                detail.as_str(),
            ),
            BlockchainError::UtxoError(detail) => "UTXO error: ".to_owned().concat(detail.as_str()),
        }
    }

    /// An error of the ledger as an error of the node.
    pub fn from_utxo_error(error: &UTXOError) -> (wrapped: Self)
        ensures
            wrapped matches BlockchainError::UtxoError(detail) && detail@ == error.text(),
    {
        BlockchainError::UtxoError(error.message())
    }

    /// An error of the protocol as an error of the node.
    pub fn from_protocol_error(error: &ProtocolError) -> (wrapped: Self)
        ensures
            wrapped matches BlockchainError::NetworkError(detail) && detail@ == error.text(),
    {
        BlockchainError::NetworkError(error.message())
    }

    /// An error of the consensus rules as an error of the node.
    pub fn from_consensus_error(error: &ConsensusError) -> (wrapped: Self)
        ensures
            wrapped matches BlockchainError::ConsensusError(detail) && detail@ == error.text(),
    {
        BlockchainError::ConsensusError(error.message())
    }

    /// A refused block as an error of the node: a proof of work that does
    /// not hold is a fault of consensus, a missing input or an output that
    /// exists one of the ledger, a signature one of cryptography, and the
    /// rest are faults of validation.
    pub fn from_rejection(rejection: BlockRejection) -> (wrapped: Self)
        ensures
            match rejection {
                BlockRejection::InvalidProofOfWork => wrapped matches BlockchainError::ConsensusError(
                    detail,
                ) && detail@ == rejection.text(),
                BlockRejection::InvalidSignature => wrapped matches BlockchainError::CryptoError(
                    detail,
                ) && detail@ == rejection.text(),
                BlockRejection::MissingInput | BlockRejection::DuplicateOutput => wrapped matches BlockchainError::UtxoError(
                    detail,
                ) && detail@ == rejection.text(),
                _ => wrapped matches BlockchainError::ValidationError(detail) && detail@
                    == rejection.text(),
            },
    {
        let detail = rejection.message();
        match rejection {
            BlockRejection::InvalidProofOfWork => BlockchainError::ConsensusError(detail),
            BlockRejection::InvalidSignature => BlockchainError::CryptoError(detail),
            BlockRejection::MissingInput => BlockchainError::UtxoError(detail),
            BlockRejection::DuplicateOutput => BlockchainError::UtxoError(detail),
            _ => BlockchainError::ValidationError(detail),
        }
    }
}

} // verus!
