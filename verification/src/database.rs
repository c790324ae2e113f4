//! Database layer: a manager over a store of unspent outputs, and blobs
//! guarded by a length and a checksum.

pub mod utxo_set;

use crate::bytes::{append_bytes, bytes_equal, le_bytes, le_value, push_le_u32, read_le_u32, to_vec};
use crate::crypto::sha512::{sha512, sha512_digest};
use crate::database::utxo_set::{UTXOError, UTXOStorage, UtxoEntry};
use vstd::prelude::*;
use vstd::slice::slice_subrange;

verus! {

/// Configuration of the database layer.
#[derive(Debug, Clone, PartialEq, Eq)]
pub struct DatabaseConfig {
    /// Where data on disk is kept, for stores that use the disk.
    pub data_dir: String,
    /// Largest cache size in bytes, for stores that have a cache.
    pub max_cache_size: usize,
}

impl Default for DatabaseConfig {
    fn default() -> (config: Self)
        ensures
            config.data_dir@ == "./data/chainstate"@,
            config.max_cache_size == 536_870_912,
    {
        DatabaseConfig { data_dir: "./data/chainstate".to_owned(), max_cache_size: 536_870_912 }
    }
}

/// The length as it is written in front of a blob: the payload's length, or
/// the largest 32-bit number where the payload is longer.
pub open spec fn length_field(len: nat) -> u32 {
    if len > u32::MAX {
        u32::MAX
    } else {
        len as u32
    }
}

/// A payload with its length in front and its SHA-512 behind.
pub open spec fn checksummed(payload: Seq<u8>) -> Seq<u8> {
    le_bytes(length_field(payload.len())) + payload + sha512(payload)@
}

/// Whether a blob is a length, a payload of that length and the payload's
/// SHA-512.
pub open spec fn well_checksummed(data: Seq<u8>) -> bool {
    &&& data.len() >= 68
    &&& data.len() == 4 + le_value(data.subrange(0, 4)) + 64
    &&& sha512(data.subrange(4, data.len() - 64))@ == data.subrange(
        data.len() - 64,
        data.len() as int,
    )
}

/// A payload that fits a 32-bit length comes back out of its blob.
pub proof fn lemma_checksum_round_trip(payload: Seq<u8>)
    requires
        payload.len() <= u32::MAX,
    ensures
        well_checksummed(checksummed(payload)),
        checksummed(payload).subrange(4, checksummed(payload).len() - 64) == payload,
{
    let data = checksummed(payload);
    let len = length_field(payload.len());
    assert(data.subrange(0, 4) =~= le_bytes(len));
    assert(le_value(le_bytes(len)) == len);
    assert(data.subrange(4, data.len() - 64) =~= payload);
    assert(data.subrange(data.len() - 64, data.len() as int) =~= sha512(payload)@);
}

/// Manager that owns a store of unspent outputs.
pub struct DatabaseManager<S: UTXOStorage> {
    storage: S,
    config: DatabaseConfig,
}

impl<S: UTXOStorage> DatabaseManager<S> {
    /// The store.
    pub closed spec fn store(&self) -> S {
        self.storage
    }

    /// The configuration.
    pub closed spec fn settings(&self) -> DatabaseConfig {
        self.config
    }

    /// Makes a manager over the given store.
    pub fn new(storage: S, config: DatabaseConfig) -> (manager: Self)
        ensures
            manager.store() == storage,
            manager.settings() == config,
    {
        DatabaseManager { storage, config }
    }

    /// Borrows the store.
    pub fn storage(&self) -> (storage: &S)
        ensures
            *storage == self.store(),
    {
        &self.storage
    }

    /// Borrows the store for changes.
    pub fn storage_mut(&mut self) -> (storage: &mut S)
        ensures
            *storage == old(self).store(),
            final(self).store() == *final(storage),
            final(self).settings() == old(self).settings(),
    {
        &mut self.storage
    }

    /// The configuration.
    pub fn config(&self) -> (config: &DatabaseConfig)
        ensures
            *config == self.settings(),
    {
        &self.config
    }

    /// Empties the store.
    pub fn clear(&mut self) -> (res: Result<(), UTXOError>)
        requires
            old(self).store().wf(),
        ensures
            final(self).store().wf(),
            final(self).store().dependable() == old(self).store().dependable(),
            old(self).store().dependable() ==> res is Ok,
            final(self).settings() == old(self).settings(),
            res is Ok ==> final(self).store().utxos() == Map::<(Seq<u8>, u32), UtxoEntry>::empty(),
            res is Err ==> final(self).store().utxos() == old(self).store().utxos(),
    {
        self.storage.clear()
    }

    /// Writes a serialized value as a blob: its length as four little-endian
    /// bytes, the bytes, and their SHA-512.
    pub fn serialize_with_checksum(bytes: &[u8]) -> (blob: Vec<u8>)
        ensures
            blob@ == checksummed(bytes@),
    {
        let len: u32 = if bytes.len() > 0xFFFF_FFFF {
            0xFFFF_FFFF
        } else {
            bytes.len() as u32
        };
        let mut out: Vec<u8> = Vec::new();
        push_le_u32(&mut out, len);
        assert(out@ =~= le_bytes(len));
        append_bytes(&mut out, bytes);
        let digest = sha512_digest(bytes);
        append_bytes(&mut out, digest.as_slice());
        out
    }

    /// Checks a blob written by [`DatabaseManager::serialize_with_checksum`] and returns its
    /// payload.
    pub fn verify_and_strip_checksum(data: &[u8]) -> (res: Result<Vec<u8>, UTXOError>)
        ensures
            res is Ok <==> well_checksummed(data@),
            res matches Ok(payload) ==> payload@ == data@.subrange(4, data@.len() - 64),
            res matches Err(e) ==> e matches UTXOError::SerializationError(text) && text@ == (
            if data@.len() < 68 {
                "blob too small"@
            } else if data@.len() != 4 + le_value(data@.subrange(0, 4)) + 64 {
                "length mismatch"@
            } else {
                "checksum mismatch"@
            }),
    {
        if data.len() < 4 + 64 {
            return Err(UTXOError::SerializationError("blob too small".to_owned()));
        }
        let len: u64 = read_le_u32(data, 0) as u64;
        if data.len() as u64 != 4 + len + 64 {
            return Err(UTXOError::SerializationError("length mismatch".to_owned()));
        }
        let payload = slice_subrange(data, 4, data.len() - 64);
        let checksum = slice_subrange(data, data.len() - 64, data.len());
        let digest = sha512_digest(payload);
        if !bytes_equal(digest.as_slice(), checksum) {
            return Err(UTXOError::SerializationError("checksum mismatch".to_owned()));
        }
        Ok(to_vec(payload))
    }
}

} // verus!
