use btpc_quantum_resistant_chain::config::{
    get_default_config_path, Config, ConfigError, DatabaseConfig, LoggingConfig, MiningConfig,
    NetworkConfig, NetworkType, RpcConfig, SecurityConfig, WalletConfig,
};
use btpc_quantum_resistant_chain::crypto::sha512::DoubleSha512;
use btpc_quantum_resistant_chain::crypto::signatures::{sha512_hash, sha512_hash_string};
use btpc_quantum_resistant_chain::network::protocol::{
    BlockHash, sha512_hash_string as sha512_of_text, Block, BlockHeader, FramedMessage, MessageHeader,
    NetAddr, NetworkMessage, PeerInfo, PingMessage, ProtocolError, PublicKeyBuiltin,
    VerackMessage, MAX_MESSAGE_SIZE, NETWORK_MAGIC,
};
use sha2::{Digest, Sha512};

fn sha512(data: &[u8]) -> [u8; 64] {
    let mut out = [0u8; 64];
    out.copy_from_slice(&Sha512::digest(data));
    out
}

#[test]
fn test_network_type_methods() {
    assert_eq!(NetworkType::Mainnet.default_port(), 8333);
    assert_eq!(NetworkType::Testnet.default_port(), 18333);
    assert_eq!(NetworkType::Regtest.default_port(), 18444);
    assert_eq!(NetworkType::Mainnet.magic_bytes(), 0xD9B4_BEF9);
}

#[test]
fn test_network_specific_config() {
    let testnet_config = Config::new(NetworkType::Testnet, "./data/btpc".to_string());
    assert_eq!(testnet_config.network, NetworkType::Testnet);
    assert!(testnet_config.enable_testnet_faucet);

    let regtest_config = Config::new(NetworkType::Regtest, "./data/btpc".to_string());
    assert_eq!(regtest_config.network, NetworkType::Regtest);
    assert!(regtest_config.mining.enabled);
}

#[test]
fn peer_info_valid() {
    let pk = PublicKeyBuiltin { key: [0u8; 32] };
    let peer_info = PeerInfo::new("127.0.0.1:8333".to_string(), pk, "test/1.0".to_string());
    assert!(peer_info.is_valid());
    let _id = peer_info.id();
}

#[test]
fn network_types() {
    assert_eq!(NetworkType::default(), NetworkType::Mainnet);
    assert_eq!(NetworkType::Testnet.magic_bytes(), 0x0709_110B);
    assert_eq!(NetworkType::Regtest.magic_bytes(), 0xDAB5_BFFA);
    assert_eq!(NetworkType::Mainnet.default_rpc_port(), 8334);
    assert_eq!(NetworkType::Testnet.default_rpc_port(), 18334);
    assert_eq!(NetworkType::Regtest.default_rpc_port(), 18445);
    assert_eq!(NetworkType::Mainnet.genesis_timestamp(), 1_231_006_505);
    assert_eq!(NetworkType::Testnet.genesis_timestamp(), 1_296_688_602);
    assert_eq!(NetworkType::Regtest.genesis_timestamp(), 1_296_688_602);
}

#[test]
fn configuration_of_a_network() {
    let main = Config::new(NetworkType::Mainnet, "/var/btpc".to_string());
    assert_eq!(main.network_config.listen_addr, "0.0.0.0:8333");
    assert_eq!(main.rpc.listen_addr, "127.0.0.1:8334");
    assert!(!main.enable_testnet_faucet);
    assert!(!main.mining.enabled);
    assert_eq!(main.mining.difficulty_target, 0x1f00_ffff);
    assert_eq!(main.mining.block_reward, 3_237_500_000);
    assert_eq!(main.mining.halving_interval, 1_261_440);
    assert_eq!(main.user_agent, "BTPC-QRC/0.1.0");
    assert_eq!(main.prune_depth, 288);
    assert_eq!(main.max_mempool_size, 300 * 1024 * 1024);
    assert_eq!(main.mempool_expiry, 14 * 24 * 60 * 60);
    assert_eq!(main.get_network_magic(), 0xD9B4_BEF9);
    assert_eq!(main.get_network_port(), 8333);
    assert_eq!(main.get_rpc_port(), 8334);
    assert_eq!(main.get_genesis_timestamp(), 1_231_006_505);
    assert_eq!(main.get_data_subdir("x"), "/var/btpc/x");
    assert_eq!(main.get_blocks_dir(), "/var/btpc/blocks");
    assert_eq!(main.get_chainstate_dir(), "/var/btpc/chainstate");
    assert_eq!(main.get_wallets_dir(), "/var/btpc/wallets");
    assert_eq!(main.get_logs_dir(), "/var/btpc/logs");
    assert_eq!(main.get_config_file(), "/var/btpc/config.toml");
    assert_eq!(main.get_peers_file(), "/var/btpc/peers.json");
    let test = Config::new(NetworkType::Testnet, "d".to_string());
    assert_eq!(test.network_config.listen_addr, "0.0.0.0:18333");
    assert_eq!(test.rpc.listen_addr, "127.0.0.1:18334");
    assert!(!test.mining.enabled);
    let regtest = Config::new(NetworkType::Regtest, "d".to_string());
    assert_eq!(regtest.network_config.listen_addr, "0.0.0.0:18444");
    assert_eq!(regtest.rpc.listen_addr, "127.0.0.1:18445");
    assert_eq!(regtest.mining.difficulty_target, 0x207f_ffff);
    assert!(!regtest.enable_testnet_faucet);
    assert_eq!(get_default_config_path(NetworkType::Mainnet, "/b"), "/b/config.toml");
    assert_eq!(get_default_config_path(NetworkType::Testnet, "/b"), "/b/testnet/config.toml");
    assert_eq!(get_default_config_path(NetworkType::Regtest, "/b"), "/b/regtest/config.toml");
}

#[test]
fn default_settings() {
    let database = DatabaseConfig::default();
    assert_eq!(database.data_dir, "./data");
    assert_eq!(database.max_cache_size, 10_000);
    assert_eq!(database.write_buffer_size, 64 * 1024 * 1024);
    assert_eq!(database.compaction_style, "level");
    let network = NetworkConfig::default();
    assert_eq!(network.max_connections, 125);
    assert_eq!(network.dns_seeds.len(), 5);
    assert_eq!(network.dns_seeds[0], "seed.bitcoin.sipa.be");
    assert_eq!(network.ban_duration, 86_400);
    let mining = MiningConfig::default();
    assert_eq!(mining.threads, 4);
    assert_eq!(mining.block_size_limit, 4 * 1024 * 1024);
    assert_eq!(mining.pow_algorithm, "sha512");
    let rpc = RpcConfig::default();
    assert!(rpc.enabled);
    assert_eq!(rpc.timeout, 30);
    let logging = LoggingConfig::default();
    assert_eq!(logging.level, "info");
    assert_eq!(logging.file_path, Some("logs/btpc.log".to_string()));
    let wallet = WalletConfig::default();
    assert_eq!(wallet.default_wallet, Some("default".to_string()));
    assert_eq!(wallet.keypool_size, 1000);
    let security = SecurityConfig::default();
    assert_eq!(security.max_request_size, 16 * 1024 * 1024);
    assert_eq!(security.rate_limit_period, 60);
    assert_eq!(ConfigError::ParseError("line 3".to_string()).message(), "Parse error: line 3");
    assert_eq!(ConfigError::IoError("gone".to_string()).message(), "IO error: gone");
}

#[test]
fn hashes() {
    let bytes = sha512(b"abc");
    let hash = BlockHash::from_bytes(bytes);
    assert_eq!(hash.as_bytes(), &bytes);
    assert_eq!(hash.into_bytes(), bytes);
    assert_eq!(BlockHash::zero(), BlockHash::from_bytes([0u8; 64]));
    assert!(hash.same(&BlockHash::from_bytes(bytes)));
    assert!(!hash.same(&BlockHash::zero()));
    assert_eq!(
        hash.to_hex(),
        "ddaf35a193617abacc417349ae20413112e6fa4e89a97ea20a9eeee64b55d39a\
         2192992a274fc1a836ba3c23a3feebbd454d4423643ce80e2a9ac94fa54ca49f"
    );
    assert_eq!(BlockHash::zero().to_hex(), "0".repeat(128));
    assert_eq!(sha512_hash(b"abc"), bytes);
    assert_eq!(sha512_hash_string(b"abc"), hash.to_hex());
    assert_eq!(sha512_of_text("abc"), bytes);
    assert_eq!(btpc_quantum_resistant_chain::network::protocol::sha512_hash(b"abc"), bytes);
}

#[test]
fn double_sha512() {
    let expected = sha512(&sha512(b"data"));
    assert_eq!(DoubleSha512::hash(b"data"), expected);
    let chunks: [&[u8]; 3] = [b"a", b"", b"data"];
    let batch = DoubleSha512::hash_batch(&chunks);
    assert_eq!(batch.len(), 3);
    assert_eq!(batch[0], sha512(&sha512(b"a")));
    assert_eq!(batch[1], sha512(&sha512(b"")));
    assert_eq!(batch[2], expected);
    let mixed = DoubleSha512::hash_asic_resistant(b"data");
    assert_ne!(mixed, expected);
    assert_ne!(mixed, sha512(&sha512(b"data")[..32]));
    assert_eq!(mixed, DoubleSha512::hash_asic_resistant(b"data"));
    assert_ne!(mixed, DoubleSha512::hash_asic_resistant(b"datb"));
}

#[test]
fn peer_identifier() {
    let pk = PublicKeyBuiltin { key: [5u8; 32] };
    assert_eq!(pk.as_bytes(), [5u8; 32]);
    let peer = PeerInfo::seen_at("127.0.0.1:8333".to_string(), pk, "test/1.0".to_string(), 77);
    assert_eq!(peer.last_seen, 77);
    assert_eq!(peer.connection_time, 77);
    assert_eq!(peer.version, 1);
    assert_eq!(peer.services, 1);
    let mut data = b"127.0.0.1:8333".to_vec();
    data.extend_from_slice(&[5u8; 32]);
    assert_eq!(peer.id(), BlockHash::from_bytes(sha512(&data)).to_hex());
    assert_eq!(peer.duplicate(), peer);
    let mut invalid = peer.clone();
    invalid.user_agent = String::new();
    assert!(!invalid.is_valid());
    let mut old = peer.clone();
    old.version = 0;
    assert!(!old.is_valid());
    let mut unseen = peer;
    unseen.last_seen = 0;
    assert!(!unseen.is_valid());
    let addr = NetAddr::new("::1".to_string(), 8333);
    assert_eq!((addr.services, addr.port), (1, 8333));
}

#[test]
fn message_header_guards_the_payload() {
    let payload = b"payload bytes".to_vec();
    let header = MessageHeader::new("ping", &payload).unwrap();
    assert_eq!(header.magic, NETWORK_MAGIC);
    assert_eq!(header.magic, 0xD9B4_BEF9);
    assert_eq!(&header.command, b"ping\0\0\0\0\0\0\0\0");
    assert_eq!(header.length, 13);
    assert_eq!(header.checksum, BlockHash::from_bytes(sha512(&payload)));
    assert!(header.verify_checksum(&payload));
    assert!(!header.verify_checksum(b"payload bytez"));
    assert!(!header.verify_checksum(b""));
    assert_eq!(&MessageHeader::new("twelve_chars", &[]).unwrap().command, b"twelve_chars");
    assert!(matches!(
        MessageHeader::new("thirteen_char", &payload),
        Err(ProtocolError::InvalidMessage)
    ));
    let large = vec![0u8; MAX_MESSAGE_SIZE + 1];
    assert!(matches!(MessageHeader::new("block", &large), Err(ProtocolError::InvalidMessage)));
    assert!(MessageHeader::new("block", &large[1..]).is_ok());
}

#[test]
fn framed_messages_round_trip() {
    let payload = b"encoded message".to_vec();
    let framed = FramedMessage::new("inv", payload.clone()).unwrap();
    assert_eq!(framed.payload, payload);
    assert_eq!(FramedMessage::parse_message(&framed.header, &framed.payload).unwrap(), &payload[..]);
    let mut damaged = payload.clone();
    damaged[0] ^= 1;
    assert!(matches!(
        FramedMessage::parse_message(&framed.header, &damaged),
        Err(ProtocolError::InvalidMessage)
    ));
    let mut other = framed.header;
    other.checksum.0[63] ^= 1;
    assert!(FramedMessage::parse_message(&other, &payload).is_err());
    assert!(FramedMessage::new("a_name_too_long", payload).is_err());
    // a payload over the limit is refused even under its own checksum
    let large = vec![7u8; MAX_MESSAGE_SIZE + 1];
    let mut forged = framed.header;
    forged.checksum = BlockHash::from_bytes(sha512(&large));
    assert!(FramedMessage::parse_message(&forged, &large).is_err());
}

#[test]
fn message_names_and_errors() {
    assert_eq!(NetworkMessage::Ping(PingMessage { nonce: 1 }).command(), "ping");
    assert_eq!(NetworkMessage::Verack(VerackMessage).command(), "verack");
    assert_eq!(ProtocolError::InvalidMessage.message(), "Invalid message format");
    assert_eq!(ProtocolError::InvalidVersion.message(), "Invalid protocol version");
    assert_eq!(ProtocolError::PeerError("gone".to_string()).message(), "Peer error: gone");
    assert_eq!(
        ProtocolError::SerializationError("eof".to_string()).message(),
        "Serialization error: eof"
    );
}

#[test]
fn block_header_bytes_and_root() {
    let header = BlockHeader {
        version: 0x0102_0304,
        prev_block: BlockHash::from_bytes([0xAA; 64]),
        merkle_root: BlockHash::from_bytes([0xBB; 64]),
        time: 5,
        bits: 0x0203_E800,
        nonce: 0xFFFF_FFFF,
    };
    let bytes = header.to_bytes();
    assert_eq!(bytes.len(), 144);
    assert_eq!(&bytes[..4], &[1, 2, 3, 4]);
    assert_eq!(&bytes[4..68], &[0xAA; 64]);
    assert_eq!(&bytes[68..132], &[0xBB; 64]);
    assert_eq!(&bytes[132..136], &[0, 0, 0, 5]);
    assert_eq!(&bytes[136..140], &[2, 3, 0xE8, 0]);
    assert_eq!(&bytes[140..], &[0xFF; 4]);
    let mut block = Block { header, tx_hashes: vec![] };
    assert_eq!(block.merkle_root(), BlockHash::zero());
    block.tx_hashes.push(BlockHash::from_bytes(sha512(b"a")));
    assert_eq!(block.merkle_root(), BlockHash::from_bytes(sha512(b"a")));
    block.tx_hashes.push(BlockHash::from_bytes(sha512(b"b")));
    let mut both = sha512(b"a").to_vec();
    both.extend_from_slice(&sha512(b"b"));
    assert_eq!(block.merkle_root(), BlockHash::from_bytes(sha512(&both)));
}

#[test]
fn header_on_the_wire() {
    let payload = b"payload bytes".to_vec();
    let header = MessageHeader::new("ping", &payload).unwrap();
    let bytes = header.to_bytes();
    assert_eq!(bytes.len(), 84);
    assert_eq!(&bytes[..4], &[0xF9, 0xBE, 0xB4, 0xD9]);
    assert_eq!(&bytes[4..16], b"ping\0\0\0\0\0\0\0\0");
    assert_eq!(&bytes[16..20], &[13, 0, 0, 0]);
    assert_eq!(&bytes[20..], &sha512(&payload)[..]);
    assert_eq!(MessageHeader::from_bytes(&bytes).unwrap(), header);
    assert!(matches!(MessageHeader::from_bytes(&bytes[..83]), Err(ProtocolError::InvalidMessage)));
    let mut long = bytes.clone();
    long.push(0);
    assert!(MessageHeader::from_bytes(&long).is_err());
    let mut other = bytes;
    other[17] = 1;
    assert_eq!(MessageHeader::from_bytes(&other).unwrap().length, 13 + 256);
}

#[test]
fn frame_on_the_wire() {
    let payload = b"encoded message".to_vec();
    let framed = FramedMessage::new("block", payload.clone()).unwrap();
    let bytes = framed.to_bytes();
    assert_eq!(bytes.len(), 84 + payload.len());
    assert_eq!(&bytes[84..], &payload[..]);
    assert_eq!(FramedMessage::from_bytes(&bytes).unwrap(), framed);
    let empty = FramedMessage::new("verack", vec![]).unwrap();
    assert_eq!(FramedMessage::from_bytes(&empty.to_bytes()).unwrap(), empty);
    // one byte changed anywhere but in the magic number or the command
    for at in [16usize, 20, 83, 84, bytes.len() - 1] {
        let mut bad = bytes.clone();
        bad[at] ^= 0x01;
        assert!(matches!(FramedMessage::from_bytes(&bad), Err(ProtocolError::InvalidMessage)));
    }
    assert!(FramedMessage::from_bytes(&bytes[..bytes.len() - 1]).is_err());
    assert!(FramedMessage::from_bytes(&bytes[..83]).is_err());
    assert!(FramedMessage::from_bytes(&[]).is_err());
    let mut longer = bytes.clone();
    longer.push(0);
    assert!(FramedMessage::from_bytes(&longer).is_err());
}

#[test]
fn mixed_hash_is_sha512_over_blake3_over_sha512() {
    let first = sha512(b"data");
    let mixed = blake3::hash(&first);
    assert_eq!(DoubleSha512::hash_asic_resistant(b"data"), sha512(mixed.as_bytes()));
}

#[test]
fn hashes_from_text_and_bytes() {
    let bytes = sha512(b"abc");
    let hash = BlockHash::from_bytes(bytes);
    assert_eq!(BlockHash::from_hex(&hash.to_hex()), Some(hash));
    assert_eq!(BlockHash::from_hex(&hash.to_hex().to_uppercase()), Some(hash));
    assert_eq!(BlockHash::from_hex(&"0".repeat(128)), Some(BlockHash::zero()));
    let mut one = [0u8; 64];
    one[0] = 0xA1;
    one[63] = 0x0f;
    let text = format!("a1{}0F", "0".repeat(124));
    assert_eq!(BlockHash::from_hex(&text), Some(BlockHash::from_bytes(one)));
    assert_eq!(BlockHash::from_hex(&"0".repeat(127)), None);
    assert_eq!(BlockHash::from_hex(&"0".repeat(126)), None);
    assert_eq!(BlockHash::from_hex(&"0".repeat(130)), None);
    assert_eq!(BlockHash::from_hex(&format!("g{}", "0".repeat(127))), None);
    assert_eq!(BlockHash::from_hex(""), None);
    assert_eq!(BlockHash::from_slice(&bytes), Some(hash));
    assert_eq!(BlockHash::from_slice(&bytes[..63]), None);
    assert_eq!(BlockHash::from_slice(&[]), None);
}
