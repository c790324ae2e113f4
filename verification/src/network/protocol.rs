//! Peer-to-peer protocol types: hashes, messages, message headers with their
//! checksum, and peer records.

use crate::blockchain::merkle::{leaf_views, plain_merkle_root, MerkleTree};
use crate::bytes::{
    append_bytes, bytes_equal, le_bytes, le_value, lemma_le_round_trip, push_le_u32, read_le_u32,
    to_vec,
};
use vstd::slice::slice_subrange;
use crate::clock::unix_time;
use crate::crypto::hex::{hex_bytes, hex_decode, hex_encode, hex_text, is_hex};
use crate::crypto::sha512::{sha512, sha512_digest};
use crate::database::utxo_set::OutPoint;
use vstd::prelude::*;
use vstd::string::StringExecFns;
use vstd::utf8::encode_utf8;

verus! {

/// A 64-byte SHA-512 hash.
#[derive(Debug, Clone, Copy, PartialEq, Eq, Hash)]
pub struct Hash(pub [u8; 64]);

/// The hash of a block or a transaction.
pub type BlockHash = Hash;

impl View for Hash {
    type V = Seq<u8>;

    open spec fn view(&self) -> Seq<u8> {
        self.0@
    }
}

impl Hash {
    pub fn from_bytes(bytes: [u8; 64]) -> (hash: Self)
        ensures
            hash.0 == bytes,
    {
        Hash(bytes)
    }

    pub fn as_bytes(&self) -> (bytes: &[u8; 64])
        ensures
            *bytes == self.0,
    {
        &self.0
    }

    pub fn into_bytes(self) -> (bytes: [u8; 64])
        ensures
            bytes == self.0,
    {
        self.0
    }

    /// Returns the all-zero hash.
    pub fn zero() -> (hash: Self)
        ensures
            hash@ == Seq::new(64, |i: int| 0u8),
    {
        let hash = Hash([0u8; 64]);
        assert(hash@ =~= Seq::new(64, |i: int| 0u8));
        hash
    }

    /// Whether two hashes hold the same bytes.
    pub fn same(&self, other: &Hash) -> (same: bool)
        ensures
            same == (self@ == other@),
    {
        bytes_equal(self.0.as_slice(), other.0.as_slice())
    }

    /// The hash that 64 bytes stand for; other lengths stand for none.
    pub fn from_slice(bytes: &[u8]) -> (hash: Option<Self>)
        ensures
            hash is Some <==> bytes@.len() == 64,
            hash matches Some(h) ==> h@ == bytes@,
    {
        if bytes.len() != 64 {
            return None;
        }
        let mut array: [u8; 64] = [0u8; 64];
        let mut i: usize = 0;
        while i < 64
            invariant
                i <= 64,
                bytes@.len() == 64,
                forall|j: int| 0 <= j < i ==> array@[j] == bytes@[j],
            decreases 64 - i,
        {
            array[i] = bytes[i];
            i += 1;
        }
        assert(array@ =~= bytes@);
        Some(Hash(array))
    }

    /// The hash that a hexadecimal text of 128 digits stands for; the digits
    /// may be of either case.
    pub fn from_hex(text: &str) -> (hash: Option<Self>)
        ensures
            hash is Some <==> is_hex(encode_utf8(text@)) && encode_utf8(text@).len() == 128,
            hash matches Some(h) ==> h@ == hex_bytes(encode_utf8(text@)),
    {
        match hex_decode(text.as_bytes()) {
            Some(bytes) => Self::from_slice(bytes.as_slice()),
            None => None,
        }
    }

    /// The hash as lowercase hexadecimal text, as it is shown to people.
    pub fn to_hex(&self) -> (text: String)
        ensures
            text@ == hex_text(self@),
    {
        hex_encode(self.0.as_slice())
    }
}

/// Protocol-level error type.
#[derive(Debug, Clone)]
pub enum ProtocolError {
    InvalidMessage,
    InvalidSignature,
    InvalidVersion,
    InvalidNonce,
    SerializationError(String),
    NetworkError(String),
    PeerError(String),
    Timeout,
}

impl ProtocolError {
    /// The error in words.
    pub open spec fn text(&self) -> Seq<char> {
        match *self {
            ProtocolError::InvalidMessage => "Invalid message format"@,
            ProtocolError::InvalidSignature => "Invalid message signature"@,
            ProtocolError::InvalidVersion => "Invalid protocol version"@,
            ProtocolError::InvalidNonce => "Invalid nonce"@,
            ProtocolError::SerializationError(detail) => "Serialization error: "@ + detail@,
            ProtocolError::NetworkError(detail) => "Network error: "@ + detail@,
            ProtocolError::PeerError(detail) => "Peer error: "@ + detail@,
            ProtocolError::Timeout => "Timeout"@,
        }
    }

    /// The error in words.
    pub fn message(&self) -> (text: String)
        ensures
            text@ == self.text(),
    {
        match self {
            ProtocolError::InvalidMessage => "Invalid message format".to_owned(),
            ProtocolError::InvalidSignature => "Invalid message signature".to_owned(),
            ProtocolError::InvalidVersion => "Invalid protocol version".to_owned(),
            ProtocolError::InvalidNonce => "Invalid nonce".to_owned(),
            ProtocolError::SerializationError(detail) => "Serialization error: ".to_owned().concat(
                detail.as_str(),
            ),
            ProtocolError::NetworkError(detail) => "Network error: ".to_owned().concat(
                detail.as_str(),
            ),
            ProtocolError::PeerError(detail) => "Peer error: ".to_owned().concat(detail.as_str()),
            ProtocolError::Timeout => "Timeout".to_owned(),
        }
    }
}

/// Maximum message size in bytes.
pub const MAX_MESSAGE_SIZE: usize = 2_097_152;

/// Wire protocol version.
pub const PROTOCOL_VERSION: u32 = 1;

/// The length of a message header on the wire.
pub const HEADER_SIZE: usize = 84;

/// The magic number in front of every message.
pub const NETWORK_MAGIC: u32 = 0xD9B4_BEF9;

/// Inventory kind of a transaction.
pub const INV_TRANSACTION: u8 = 1;

/// Inventory kind of a block.
pub const INV_BLOCK: u8 = 2;

/// A public key of the built-in demonstration scheme.
#[derive(Debug, Clone, Copy, PartialEq, Eq)]
pub struct PublicKeyBuiltin {
    pub key: [u8; 32],
}

impl PublicKeyBuiltin {
    pub fn as_bytes(&self) -> (bytes: [u8; 32])
        ensures
            bytes == self.key,
    {
        self.key
    }
}

/// SHA-512 of a byte string.
pub fn sha512_hash(data: &[u8]) -> (digest: [u8; 64])
    ensures
        digest@ == sha512(data@)@,
{
    sha512_digest(data)
}

/// SHA-512 of the bytes of a text.
pub fn sha512_hash_string(s: &str) -> (digest: [u8; 64])
    ensures
        digest@ == sha512(encode_utf8(s@))@,
{
    sha512_hash(s.as_bytes())
}

/// An announced or requested item: its kind and its hash.
#[derive(Debug, Clone, Copy, PartialEq, Eq)]
pub struct InvEntry {
    /// [`INV_TRANSACTION`] or [`INV_BLOCK`].
    pub kind: u8,
    pub hash: Hash,
}

/// A network address with its service bits. The address is held as text.
#[derive(Debug, Clone, PartialEq, Eq)]
pub struct NetAddr {
    pub services: u64,
    pub ip: String,
    pub port: u16,
}

impl NetAddr {
    pub fn new(ip: String, port: u16) -> (addr: Self)
        ensures
            addr == (NetAddr { services: 1, ip, port }),
    {
        NetAddr { services: 0x01, ip, port }
    }
}

/// Version handshake message.
#[derive(Debug, Clone, PartialEq)]
pub struct VersionMessage {
    pub version: u32,
    pub services: u64,
    pub timestamp: u64,
    pub receiver: NetAddr,
    pub sender: NetAddr,
    pub nonce: u64,
    pub user_agent: String,
    pub start_height: u32,
    pub relay: bool,
}

#[derive(Debug, Clone, Copy, PartialEq)]
pub struct VerackMessage;

#[derive(Debug, Clone, Copy, PartialEq)]
pub struct PingMessage {
    pub nonce: u64,
}

#[derive(Debug, Clone, Copy, PartialEq)]
pub struct PongMessage {
    pub nonce: u64,
}

#[derive(Debug, Clone, Copy, PartialEq)]
pub struct GetAddrMessage;

#[derive(Debug, Clone, PartialEq)]
pub struct AddrMessage {
    pub addresses: Vec<PeerInfo>,
}

#[derive(Debug, Clone, PartialEq)]
pub struct InvMessage {
    pub items: Vec<InvEntry>,
}

#[derive(Debug, Clone, PartialEq)]
pub struct GetDataMessage {
    pub items: Vec<InvEntry>,
}

#[derive(Debug, Clone, PartialEq)]
pub struct GetBlocksMessage {
    pub version: u32,
    pub block_locator_hashes: Vec<Hash>,
    pub hash_stop: Hash,
}

/// Block header.
#[derive(Debug, Clone, Copy, PartialEq)]
pub struct BlockHeader {
    pub version: u32,
    pub prev_block: Hash,
    pub merkle_root: Hash,
    pub time: u32,
    /// The difficulty in compact form.
    pub bits: u32,
    pub nonce: u32,
}

/// The four bytes of `value`, most significant first.
pub open spec fn be_bytes_u32(value: u32) -> Seq<u8> {
    seq![
        (value / 0x100_0000) as u8,
        (value / 0x1_0000 % 256) as u8,
        (value / 0x100 % 256) as u8,
        (value % 256) as u8,
    ]
}

fn push_be_u32(buf: &mut Vec<u8>, value: u32)
    ensures
        final(buf)@ == old(buf)@ + be_bytes_u32(value),
{
    buf.push((value / 0x100_0000) as u8);
    buf.push((value / 0x1_0000 % 256) as u8);
    buf.push((value / 0x100 % 256) as u8);
    buf.push((value % 256) as u8);
    assert(buf@ =~= old(buf)@ + be_bytes_u32(value));
}

impl BlockHeader {
    /// The header as the bytes that are hashed for the proof of work: the
    /// fields in order, each number as four big-endian bytes.
    pub open spec fn bytes(&self) -> Seq<u8> {
        be_bytes_u32(self.version) + self.prev_block@ + self.merkle_root@ + be_bytes_u32(self.time)
            + be_bytes_u32(self.bits) + be_bytes_u32(self.nonce)
    }

    /// Writes the header out as bytes.
    pub fn to_bytes(&self) -> (bytes: Vec<u8>)
        ensures
            bytes@ == self.bytes(),
            bytes@.len() == 144,
    {
        let mut bytes: Vec<u8> = Vec::new();
        push_be_u32(&mut bytes, self.version);
        append_bytes(&mut bytes, self.prev_block.0.as_slice());
        append_bytes(&mut bytes, self.merkle_root.0.as_slice());
        push_be_u32(&mut bytes, self.time);
        push_be_u32(&mut bytes, self.bits);
        push_be_u32(&mut bytes, self.nonce);
        assert(bytes@ =~= self.bytes());
        bytes
    }
}

/// The byte strings of a sequence of hashes.
pub open spec fn hash_views(hashes: Seq<Hash>) -> Seq<Seq<u8>> {
    Seq::new(hashes.len(), |i: int| hashes[i]@)
}

/// A block: its header and the hashes of its transactions in order.
#[derive(Debug, Clone, PartialEq)]
pub struct Block {
    pub header: BlockHeader,
    pub tx_hashes: Vec<Hash>,
}

impl Block {
    /// The Merkle root over the transaction hashes; the zero hash for a block
    /// without transactions.
    pub open spec fn spec_merkle_root(&self) -> Seq<u8> {
        if self.tx_hashes@.len() == 0 {
            Seq::new(64, |i: int| 0u8)
        } else {
            plain_merkle_root(hash_views(self.tx_hashes@))
        }
    }

    /// Computes the Merkle root over the transaction hashes.
    pub fn merkle_root(&self) -> (root: Hash)
        ensures
            root@ == self.spec_merkle_root(),
    {
        if self.tx_hashes.len() == 0 {
            return Hash::zero();
        }
        let mut leaves: Vec<[u8; 64]> = Vec::new();
        let mut i: usize = 0;
        while i < self.tx_hashes.len()
            invariant
                i <= self.tx_hashes.len(),
                leaves.len() == i,
                forall|j: int| 0 <= j < i ==> leaves@[j] == self.tx_hashes@[j].0,
            decreases self.tx_hashes.len() - i,
        {
            leaves.push(self.tx_hashes[i].0);
            i += 1;
        }
        assert(leaf_views(leaves@) =~= hash_views(self.tx_hashes@));
        match MerkleTree::new(leaves.as_slice()) {
            Ok(tree) => Hash(tree.root()),
            Err(_) => Hash::zero(),
        }
    }
}

/// A transaction: the outputs it spends and the outputs it makes, each with
/// its value.
#[derive(Debug, Clone, PartialEq, Eq)]
pub struct Transaction {
    pub inputs: Vec<OutPoint>,
    pub outputs: Vec<(OutPoint, u64)>,
}

/// Peer record. The address is held as text.
#[derive(Debug, Clone, PartialEq)]
pub struct PeerInfo {
    pub address: String,
    pub public_key: PublicKeyBuiltin,
    pub last_seen: u64,
    pub user_agent: String,
    pub version: u32,
    pub services: u64,
    pub connection_time: u64,
}

impl PeerInfo {
    /// The identifier of a peer with this address and key: the SHA-512 of
    /// the address text followed by the key, as hexadecimal text.
    pub open spec fn id_of(address: Seq<u8>, key: Seq<u8>) -> Seq<char> {
        hex_text(sha512(address + key)@)
    }

    /// The identifier of the peer.
    pub open spec fn spec_id(&self) -> Seq<char> {
        Self::id_of(encode_utf8(self.address@), self.public_key.key@)
    }

    /// Whether the peer speaks a known protocol version, names its software
    /// and was seen at some time.
    pub open spec fn valid(&self) -> bool {
        self.version >= PROTOCOL_VERSION && self.user_agent@.len() > 0 && self.last_seen > 0
    }

    /// A peer first seen at `now`.
    pub fn seen_at(address: String, public_key: PublicKeyBuiltin, user_agent: String, now: u64) -> (peer:
        Self)
        ensures
            peer == (PeerInfo {
                address,
                public_key,
                last_seen: now,
                user_agent,
                version: PROTOCOL_VERSION,
                services: 1,
                connection_time: now,
            }),
    {
        PeerInfo {
            address,
            public_key,
            last_seen: now,
            user_agent,
            version: PROTOCOL_VERSION,
            services: 0x01,
            connection_time: now,
        }
    }

    /// A peer first seen now.
    pub fn new(address: String, public_key: PublicKeyBuiltin, user_agent: String) -> (peer: Self)
        ensures
            peer.address == address,
            peer.public_key == public_key,
            peer.user_agent == user_agent,
            peer.version == PROTOCOL_VERSION,
            peer.services == 1,
            peer.last_seen == peer.connection_time,
    {
        let now: u64 = unix_time();
        Self::seen_at(address, public_key, user_agent, now)
    }

    /// The identifier of the peer.
    pub fn id(&self) -> (id: String)
        ensures
            id@ == self.spec_id(),
    {
        let mut data: Vec<u8> = Vec::new();
        append_bytes(&mut data, self.address.as_str().as_bytes());
        append_bytes(&mut data, self.public_key.key.as_slice());
        let digest = sha512_digest(data.as_slice());
        hex_encode(digest.as_slice())
    }

    /// A copy of the record.
    pub fn duplicate(&self) -> (copy: Self)
        ensures
            copy == *self,
    {
        PeerInfo {
            address: self.address.clone(),
            public_key: self.public_key,
            last_seen: self.last_seen,
            user_agent: self.user_agent.clone(),
            version: self.version,
            services: self.services,
            connection_time: self.connection_time,
        }
    }

    pub fn is_valid(&self) -> (valid: bool)
        ensures
            valid == self.valid(),
    {
        self.version >= PROTOCOL_VERSION && !self.user_agent.as_str().is_empty() && self.last_seen
            > 0
    }
}

/// All peer-to-peer messages.
#[derive(Debug, Clone, PartialEq)]
pub enum NetworkMessage {
    Version(VersionMessage),
    Verack(VerackMessage),
    Ping(PingMessage),
    Pong(PongMessage),
    GetAddr(GetAddrMessage),
    Addr(AddrMessage),
    Inv(InvMessage),
    GetData(GetDataMessage),
    Block(Block),
    GetBlocks(GetBlocksMessage),
}

impl NetworkMessage {
    /// The command name that announces the message in a header.
    pub fn command(&self) -> (name: &'static str)
        ensures
            name@ == (match *self {
                NetworkMessage::Version(_) => "version"@,
                NetworkMessage::Verack(_) => "verack"@,
                NetworkMessage::Ping(_) => "ping"@,
                NetworkMessage::Pong(_) => "pong"@,
                NetworkMessage::GetAddr(_) => "getaddr"@,
                NetworkMessage::Addr(_) => "addr"@,
                NetworkMessage::Inv(_) => "inv"@,
                NetworkMessage::GetData(_) => "getdata"@,
                NetworkMessage::Block(_) => "block"@,
                NetworkMessage::GetBlocks(_) => "getblocks"@,
            }),
    {
        match self {
            NetworkMessage::Version(_) => "version",
            NetworkMessage::Verack(_) => "verack",
            NetworkMessage::Ping(_) => "ping",
            NetworkMessage::Pong(_) => "pong",
            NetworkMessage::GetAddr(_) => "getaddr",
            NetworkMessage::Addr(_) => "addr",
            NetworkMessage::Inv(_) => "inv",
            NetworkMessage::GetData(_) => "getdata",
            NetworkMessage::Block(_) => "block",
            NetworkMessage::GetBlocks(_) => "getblocks",
        }
    }
}

/// A command name padded with zero bytes to twelve bytes.
pub open spec fn padded_command(name: Seq<u8>) -> Seq<u8> {
    Seq::new(
        12,
        |i: int|
            if i < name.len() {
                name[i]
            } else {
                0u8
            },
    )
}

/// Message header with a checksum that guards the payload.
#[derive(Debug, Clone, Copy, PartialEq, Eq)]
pub struct MessageHeader {
    pub magic: u32,
    pub command: [u8; 12],
    pub length: u32,
    pub checksum: Hash,
}

impl MessageHeader {
    /// Whether the checksum is that of `payload`.
    pub open spec fn guards(&self, payload: Seq<u8>) -> bool {
        self.checksum@ == sha512(payload)@
    }

    /// The header for a payload under a command name. The payload must not
    /// be larger than [`MAX_MESSAGE_SIZE`] and the name not longer than twelve
    /// bytes.
    pub fn new(command: &str, payload: &[u8]) -> (res: Result<Self, ProtocolError>)
        ensures
            res is Err <==> payload@.len() > MAX_MESSAGE_SIZE || encode_utf8(command@).len() > 12,
            res matches Err(e) ==> e is InvalidMessage,
            res matches Ok(header) ==> {
                &&& header.magic == NETWORK_MAGIC
                &&& header.command@ == padded_command(encode_utf8(command@))
                &&& header.length == payload@.len()
                &&& header.guards(payload@)
            },
    {
        if payload.len() > MAX_MESSAGE_SIZE {
            return Err(ProtocolError::InvalidMessage);
        }
        let name = command.as_bytes();
        if name.len() > 12 {
            return Err(ProtocolError::InvalidMessage);
        }
        let mut cmd: [u8; 12] = [0u8; 12];
        let mut i: usize = 0;
        while i < name.len()
            invariant
                i <= name.len() <= 12,
                forall|j: int| 0 <= j < i ==> cmd@[j] == name@[j],
                forall|j: int| i <= j < 12 ==> cmd@[j] == 0,
            decreases name.len() - i,
        {
            cmd[i] = name[i];
            i += 1;
        }
        assert(cmd@ =~= padded_command(name@));
        let checksum = Hash(sha512_digest(payload));
        Ok(MessageHeader { magic: NETWORK_MAGIC, command: cmd, length: payload.len() as u32, checksum })
    }

    /// The header on the wire: the magic number, the command name, the
    /// payload's length and the checksum, the numbers as four little-endian
    /// bytes; 84 bytes in all.
    pub open spec fn wire(&self) -> Seq<u8> {
        le_bytes(self.magic) + self.command@ + le_bytes(self.length) + self.checksum@
    }

    /// Writes the header as it goes over the wire.
    pub fn to_bytes(&self) -> (bytes: Vec<u8>)
        ensures
            bytes@ == self.wire(),
            bytes@.len() == HEADER_SIZE,
    {
        let mut bytes: Vec<u8> = Vec::new();
        push_le_u32(&mut bytes, self.magic);
        append_bytes(&mut bytes, self.command.as_slice());
        push_le_u32(&mut bytes, self.length);
        append_bytes(&mut bytes, self.checksum.0.as_slice());
        bytes
    }

    /// Reads a header from its 84 bytes.
    pub fn from_bytes(bytes: &[u8]) -> (res: Result<Self, ProtocolError>)
        ensures
            res is Ok <==> bytes@.len() == HEADER_SIZE,
            res matches Err(e) ==> e is InvalidMessage,
            res matches Ok(header) ==> header.wire() == bytes@,
    {
        if bytes.len() != HEADER_SIZE {
            return Err(ProtocolError::InvalidMessage);
        }
        let magic: u32 = read_le_u32(bytes, 0);
        let length: u32 = read_le_u32(bytes, 16);
        let mut command: [u8; 12] = [0u8; 12];
        let mut i: usize = 0;
        while i < 12
            invariant
                i <= 12,
                bytes@.len() == HEADER_SIZE,
                forall|j: int| 0 <= j < i ==> command@[j] == bytes@[4 + j],
            decreases 12 - i,
        {
            command[i] = bytes[4 + i];
            i += 1;
        }
        let mut checksum: [u8; 64] = [0u8; 64];
        let mut k: usize = 0;
        while k < 64
            invariant
                k <= 64,
                bytes@.len() == HEADER_SIZE,
                forall|j: int| 0 <= j < k ==> checksum@[j] == bytes@[20 + j],
            decreases 64 - k,
        {
            checksum[k] = bytes[20 + k];
            k += 1;
        }
        let header = MessageHeader { magic, command, length, checksum: Hash(checksum) };
        proof {
            lemma_le_round_trip(0, bytes@.subrange(0, 4));
            lemma_le_round_trip(0, bytes@.subrange(16, 20));
            assert(header.wire() =~= bytes@);
        }
        Ok(header)
    }

    /// Whether the checksum is that of `payload`.
    pub fn verify_checksum(&self, payload: &[u8]) -> (ok: bool)
        ensures
            ok == self.guards(payload@),
    {
        let digest = Hash(sha512_digest(payload));
        digest.same(&self.checksum)
    }
}

/// Framed wire message: header and payload.
#[derive(Debug, Clone, PartialEq)]
pub struct FramedMessage {
    pub header: MessageHeader,
    pub payload: Vec<u8>,
}

impl FramedMessage {
    /// Whether a payload may be decoded under a header: the checksum is the
    /// payload's and the payload is not too large.
    pub open spec fn acceptable(header: MessageHeader, payload: Seq<u8>) -> bool {
        header.guards(payload) && payload.len() <= MAX_MESSAGE_SIZE
    }

    /// Frames an encoded message under a command name.
    pub fn new(command: &str, payload: Vec<u8>) -> (res: Result<Self, ProtocolError>)
        ensures
            res is Err <==> payload@.len() > MAX_MESSAGE_SIZE || encode_utf8(command@).len() > 12,
            res matches Err(e) ==> e is InvalidMessage,
            res matches Ok(framed) ==> {
                &&& framed.payload == payload
                &&& framed.header.magic == NETWORK_MAGIC
                &&& framed.header.command@ == padded_command(encode_utf8(command@))
                &&& framed.header.length == payload@.len()
                &&& Self::acceptable(framed.header, payload@)
            },
    {
        match MessageHeader::new(command, payload.as_slice()) {
            Ok(header) => Ok(FramedMessage { header, payload }),
            Err(e) => Err(e),
        }
    }

    /// The frame on the wire: the header, then the payload.
    pub open spec fn wire(&self) -> Seq<u8> {
        self.header.wire() + self.payload@
    }

    /// Whether bytes are a frame: a header, a payload of the length that the
    /// header gives and of no more than the largest size, under the
    /// header's checksum.
    pub open spec fn well_framed(bytes: Seq<u8>) -> bool {
        &&& bytes.len() >= HEADER_SIZE
        &&& bytes.len() - HEADER_SIZE <= MAX_MESSAGE_SIZE
        &&& le_value(bytes.subrange(16, 20)) == bytes.len() - HEADER_SIZE
        &&& bytes.subrange(20, 84) == sha512(bytes.subrange(84, bytes.len() as int))@
    }

    /// Writes the frame as it goes over the wire.
    pub fn to_bytes(&self) -> (bytes: Vec<u8>)
        ensures
            bytes@ == self.wire(),
    {
        let mut bytes = self.header.to_bytes();
        append_bytes(&mut bytes, self.payload.as_slice());
        bytes
    }

    /// Reads a frame from the wire. Bytes that are not a frame are refused.
    pub fn from_bytes(bytes: &[u8]) -> (res: Result<Self, ProtocolError>)
        ensures
            res is Ok <==> Self::well_framed(bytes@),
            res matches Err(e) ==> e is InvalidMessage,
            res matches Ok(framed) ==> {
                &&& framed.wire() == bytes@
                &&& framed.header.length == framed.payload@.len()
                &&& Self::acceptable(framed.header, framed.payload@)
            },
    {
        if bytes.len() < HEADER_SIZE {
            return Err(ProtocolError::InvalidMessage);
        }
        let head = slice_subrange(bytes, 0, HEADER_SIZE);
        let payload = slice_subrange(bytes, HEADER_SIZE, bytes.len());
        let header = match MessageHeader::from_bytes(head) {
            Ok(header) => header,
            Err(e) => {
                return Err(e);
            },
        };
        proof {
            lemma_le_round_trip(header.length, bytes@.subrange(16, 20));
            assert(header.wire().subrange(16, 20) =~= le_bytes(header.length));
            assert(bytes@.subrange(16, 20) =~= head@.subrange(16, 20));
            assert(header.wire().subrange(20, 84) =~= header.checksum@);
            assert(bytes@.subrange(20, 84) =~= head@.subrange(20, 84));
        }
        if payload.len() > MAX_MESSAGE_SIZE || header.length as usize != payload.len() {
            return Err(ProtocolError::InvalidMessage);
        }
        if !header.verify_checksum(payload) {
            return Err(ProtocolError::InvalidMessage);
        }
        let framed = FramedMessage { header, payload: to_vec(payload) };
        assert(framed.wire() =~= bytes@);
        Ok(framed)
    }

    /// Checks a received payload against its header and hands it out for
    /// decoding.
    pub fn parse_message<'a>(header: &MessageHeader, payload: &'a [u8]) -> (res: Result<
        &'a [u8],
        ProtocolError,
    >)
        ensures
            res is Ok <==> Self::acceptable(*header, payload@),
            res matches Err(e) ==> e is InvalidMessage,
            res matches Ok(checked) ==> checked@ == payload@,
    {
        if !header.verify_checksum(payload) {
            return Err(ProtocolError::InvalidMessage);
        }
        if payload.len() > MAX_MESSAGE_SIZE {
            return Err(ProtocolError::InvalidMessage);
        }
        Ok(payload)
    }
}

/// A frame that was made for a payload is read back from the wire as it
/// was written: its bytes are a frame, and a frame with the same bytes has
/// the same magic number, command, length, checksum and payload.
pub proof fn lemma_frame_round_trip(framed: FramedMessage, read: FramedMessage)
    requires
        framed.header.length == framed.payload@.len(),
        FramedMessage::acceptable(framed.header, framed.payload@),
        read.wire() == framed.wire(),
    ensures
        FramedMessage::well_framed(framed.wire()),
        read.header.magic == framed.header.magic,
        read.header.command@ == framed.header.command@,
        read.header.length == framed.header.length,
        read.header.checksum@ == framed.header.checksum@,
        read.payload@ == framed.payload@,
{
    let bytes = framed.wire();
    lemma_le_round_trip(framed.header.length, bytes.subrange(16, 20));
    lemma_le_round_trip(framed.header.magic, bytes.subrange(0, 4));
    lemma_le_round_trip(read.header.length, bytes.subrange(16, 20));
    lemma_le_round_trip(read.header.magic, bytes.subrange(0, 4));
    assert(bytes.subrange(0, 4) =~= le_bytes(framed.header.magic));
    assert(bytes.subrange(0, 4) =~= le_bytes(read.header.magic));
    assert(bytes.subrange(16, 20) =~= le_bytes(framed.header.length));
    assert(bytes.subrange(16, 20) =~= le_bytes(read.header.length));
    assert(bytes.subrange(4, 16) =~= framed.header.command@);
    assert(bytes.subrange(4, 16) =~= read.header.command@);
    assert(bytes.subrange(20, 84) =~= framed.header.checksum@);
    assert(bytes.subrange(20, 84) =~= read.header.checksum@);
    assert(bytes.subrange(84, bytes.len() as int) =~= framed.payload@);
    assert(bytes.subrange(84, bytes.len() as int) =~= read.payload@);
}

} // verus!
