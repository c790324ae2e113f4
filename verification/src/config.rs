//! Configuration of a node: the network it runs on and the settings of its
//! parts. Addresses and paths are held as text.

use vstd::prelude::*;
use vstd::string::StringExecFns;

verus! {

/// The network a node runs on.
#[derive(Debug, Clone, Copy, PartialEq, Eq, Structural)]
pub enum NetworkType {
    Mainnet,
    Testnet,
    Regtest,
}

impl Default for NetworkType {
    fn default() -> (network: Self)
        ensures
            network == NetworkType::Mainnet,
    {
        NetworkType::Mainnet
    }
}

impl NetworkType {
    pub fn default_port(&self) -> (port: u16)
        ensures
            port == match *self {
                NetworkType::Mainnet => 8333u16,
                NetworkType::Testnet => 18333u16,
                NetworkType::Regtest => 18444u16,
            },
    {
        match self {
            NetworkType::Mainnet => 8333,
            NetworkType::Testnet => 18333,
            NetworkType::Regtest => 18444,
        }
    }

    pub fn magic_bytes(&self) -> (magic: u32)
        ensures
            magic == match *self {
                NetworkType::Mainnet => 0xD9B4_BEF9u32,
                NetworkType::Testnet => 0x0709_110Bu32,
                NetworkType::Regtest => 0xDAB5_BFFAu32,
            },
    {
        match self {
            NetworkType::Mainnet => 0xD9B4_BEF9,
            NetworkType::Testnet => 0x0709_110B,
            NetworkType::Regtest => 0xDAB5_BFFA,
        }
    }

    pub fn default_rpc_port(&self) -> (port: u16)
        ensures
            port == match *self {
                NetworkType::Mainnet => 8334u16,
                NetworkType::Testnet => 18334u16,
                NetworkType::Regtest => 18445u16,
            },
    {
        match self {
            NetworkType::Mainnet => 8334,
            NetworkType::Testnet => 18334,
            NetworkType::Regtest => 18445,
        }
    }

    pub fn genesis_timestamp(&self) -> (timestamp: u64)
        ensures
            timestamp == match *self {
                NetworkType::Mainnet => 1_231_006_505u64,
                NetworkType::Testnet => 1_296_688_602u64,
                NetworkType::Regtest => 1_296_688_602u64,
            },
    {
        match self {
            NetworkType::Mainnet => 1_231_006_505,
            NetworkType::Testnet => 1_296_688_602,
            NetworkType::Regtest => 1_296_688_602,
        }
    }

    /// The address on which a node of the network listens for peers.
    pub fn listen_address(&self) -> (address: String)
        ensures
            address@ == match *self {
                NetworkType::Mainnet => "0.0.0.0:8333"@,
                NetworkType::Testnet => "0.0.0.0:18333"@,
                NetworkType::Regtest => "0.0.0.0:18444"@,
            },
    {
        match self {
            NetworkType::Mainnet => "0.0.0.0:8333".to_owned(),
            NetworkType::Testnet => "0.0.0.0:18333".to_owned(),
            NetworkType::Regtest => "0.0.0.0:18444".to_owned(),
        }
    }

    /// The address on which a node of the network listens for commands.
    pub fn rpc_address(&self) -> (address: String)
        ensures
            address@ == match *self {
                NetworkType::Mainnet => "127.0.0.1:8334"@,
                NetworkType::Testnet => "127.0.0.1:18334"@,
                NetworkType::Regtest => "127.0.0.1:18445"@,
            },
    {
        match self {
            NetworkType::Mainnet => "127.0.0.1:8334".to_owned(),
            NetworkType::Testnet => "127.0.0.1:18334".to_owned(),
            NetworkType::Regtest => "127.0.0.1:18445".to_owned(),
        }
    }
}

/// Blocks over which the reward falls.
pub const DECAY_PERIOD_BLOCKS: u64 = 1_261_440;

/// The reward of the first block in base units.
pub const INITIAL_BLOCK_REWARD_SATS: u64 = 3_237_500_000;

/// The compact difficulty a chain starts with.
pub const INITIAL_DIFFICULTY_TARGET: u32 = 0x1f00_ffff;

/// The compact difficulty of a regression-test chain.
pub const REGTEST_DIFFICULTY_TARGET: u32 = 0x207f_ffff;

#[derive(Debug, Clone)]
pub struct DatabaseConfig {
    pub data_dir: String,
    pub max_cache_size: usize,
    pub cache_size_mb: usize,
    pub max_open_files: i32,
    pub compaction_style: String,
    pub write_buffer_size: usize,
    pub max_write_buffer_number: i32,
    pub target_file_size_base: u64,
    pub max_background_compactions: i32,
    pub max_background_flushes: i32,
}

impl DatabaseConfig {
    /// The settings are the default ones.
    pub open spec fn is_default(&self) -> bool {
        &&& self.data_dir@ == "./data"@
        &&& self.max_cache_size == 10_000
        &&& self.cache_size_mb == 512
        &&& self.max_open_files == 512
        &&& self.compaction_style@ == "level"@
        &&& self.write_buffer_size == 67_108_864
        &&& self.max_write_buffer_number == 4
        &&& self.target_file_size_base == 67_108_864
        &&& self.max_background_compactions == 4
        &&& self.max_background_flushes == 2
    }
}

impl Default for DatabaseConfig {
    fn default() -> (config: Self)
        ensures
            config.is_default(),
    {
        DatabaseConfig {
            data_dir: "./data".to_owned(),
            max_cache_size: 10_000,
            cache_size_mb: 512,
            max_open_files: 512,
            compaction_style: "level".to_owned(),
            write_buffer_size: 67_108_864,
            max_write_buffer_number: 4,
            target_file_size_base: 67_108_864,
            max_background_compactions: 4,
            max_background_flushes: 2,
        }
    }
}

/// Settings of the peer-to-peer network. Times are in seconds.
#[derive(Debug, Clone)]
pub struct NetworkConfig {
    pub listen_addr: String,
    pub external_addr: Option<String>,
    pub max_connections: usize,
    pub connection_timeout: u64,
    pub message_timeout: u64,
    pub peer_discovery_interval: u64,
    pub dns_seeds: Vec<String>,
    pub enable_upnp: bool,
    pub ban_threshold: u32,
    pub ban_duration: u64,
}

impl NetworkConfig {
    /// The settings are the default ones.
    pub open spec fn is_default(&self) -> bool {
        &&& self.listen_addr@ == "0.0.0.0:8333"@
        &&& self.external_addr is None
        &&& self.max_connections == 125
        &&& self.connection_timeout == 30
        &&& self.message_timeout == 120
        &&& self.peer_discovery_interval == 300
        &&& self.dns_seeds@.len() == 5
        &&& self.dns_seeds@[0]@ == "seed.bitcoin.sipa.be"@
        &&& self.dns_seeds@[1]@ == "dnsseed.bitcoin.dashjr.org"@
        &&& self.dns_seeds@[2]@ == "seed.bitcoinstats.com"@
        &&& self.dns_seeds@[3]@ == "seed.bitcoin.jonasschnelli.ch"@
        &&& self.dns_seeds@[4]@ == "seed.btc.petertodd.org"@
        &&& self.enable_upnp
        &&& self.ban_threshold == 100
        &&& self.ban_duration == 86_400
    }
}

impl NetworkConfig {
    /// The settings are the default ones but for the listening address.
    pub open spec fn differs_in_address_only(&self) -> bool {
        &&& self.external_addr is None
        &&& self.max_connections == 125
        &&& self.connection_timeout == 30
        &&& self.message_timeout == 120
        &&& self.peer_discovery_interval == 300
        &&& self.dns_seeds@.len() == 5
        &&& self.dns_seeds@[0]@ == "seed.bitcoin.sipa.be"@
        &&& self.dns_seeds@[1]@ == "dnsseed.bitcoin.dashjr.org"@
        &&& self.dns_seeds@[2]@ == "seed.bitcoinstats.com"@
        &&& self.dns_seeds@[3]@ == "seed.bitcoin.jonasschnelli.ch"@
        &&& self.dns_seeds@[4]@ == "seed.btc.petertodd.org"@
        &&& self.enable_upnp
        &&& self.ban_threshold == 100
        &&& self.ban_duration == 86_400
    }
}

impl Default for NetworkConfig {
    fn default() -> (config: Self)
        ensures
            config.is_default(),
    {
        let mut dns_seeds: Vec<String> = Vec::new();
        dns_seeds.push("seed.bitcoin.sipa.be".to_owned());
        dns_seeds.push("dnsseed.bitcoin.dashjr.org".to_owned());
        dns_seeds.push("seed.bitcoinstats.com".to_owned());
        dns_seeds.push("seed.bitcoin.jonasschnelli.ch".to_owned());
        dns_seeds.push("seed.btc.petertodd.org".to_owned());
        NetworkConfig {
            listen_addr: "0.0.0.0:8333".to_owned(),
            external_addr: None,
            max_connections: 125,
            connection_timeout: 30,
            message_timeout: 120,
            peer_discovery_interval: 300,
            dns_seeds,
            enable_upnp: true,
            ban_threshold: 100,
            ban_duration: 86_400,
        }
    }
}

#[derive(Debug, Clone)]
pub struct MiningConfig {
    pub enabled: bool,
    pub threads: usize,
    pub difficulty_target: u32,
    pub block_size_limit: usize,
    pub transaction_fee: u64,
    /// The reward of the first block in base units.
    pub block_reward: u64,
    /// The decay period in blocks.
    pub halving_interval: u64,
    pub coinbase_maturity: u32,
    pub pow_algorithm: String,
}

impl MiningConfig {
    /// The settings are the default ones.
    pub open spec fn is_default(&self) -> bool {
        &&& !self.enabled
        &&& self.threads == 4
        &&& self.difficulty_target == INITIAL_DIFFICULTY_TARGET
        &&& self.block_size_limit == 4_194_304
        &&& self.transaction_fee == 1_000
        &&& self.block_reward == INITIAL_BLOCK_REWARD_SATS
        &&& self.halving_interval == DECAY_PERIOD_BLOCKS
        &&& self.coinbase_maturity == 100
        &&& self.pow_algorithm@ == "sha512"@
    }
}

impl MiningConfig {
    /// The settings are the default ones but for the target and for whether
    /// mining is on.
    pub open spec fn differs_in_target_only(&self) -> bool {
        &&& self.threads == 4
        &&& self.block_size_limit == 4_194_304
        &&& self.transaction_fee == 1_000
        &&& self.block_reward == INITIAL_BLOCK_REWARD_SATS
        &&& self.halving_interval == DECAY_PERIOD_BLOCKS
        &&& self.coinbase_maturity == 100
        &&& self.pow_algorithm@ == "sha512"@
    }
}

impl Default for MiningConfig {
    fn default() -> (config: Self)
        ensures
            config.is_default(),
    {
        MiningConfig {
            enabled: false,
            threads: 4,
            difficulty_target: INITIAL_DIFFICULTY_TARGET,
            block_size_limit: 4_194_304,
            transaction_fee: 1_000,
            block_reward: INITIAL_BLOCK_REWARD_SATS,
            halving_interval: DECAY_PERIOD_BLOCKS,
            coinbase_maturity: 100,
            pow_algorithm: "sha512".to_owned(),
        }
    }
}

/// Settings of the command interface. The timeout is in seconds.
#[derive(Debug, Clone)]
pub struct RpcConfig {
    pub enabled: bool,
    pub listen_addr: String,
    pub username: Option<String>,
    pub password: Option<String>,
    pub max_connections: usize,
    pub timeout: u64,
    pub enable_cors: bool,
    pub cors_origin: Vec<String>,
}

impl RpcConfig {
    /// The settings are the default ones.
    pub open spec fn is_default(&self) -> bool {
        &&& self.enabled
        &&& self.listen_addr@ == "127.0.0.1:8334"@
        &&& self.username is None
        &&& self.password is None
        &&& self.max_connections == 10
        &&& self.timeout == 30
        &&& !self.enable_cors
        &&& self.cors_origin@.len() == 0
    }
}

impl RpcConfig {
    /// The settings are the default ones but for the listening address.
    pub open spec fn differs_in_address_only(&self) -> bool {
        &&& self.enabled
        &&& self.username is None
        &&& self.password is None
        &&& self.max_connections == 10
        &&& self.timeout == 30
        &&& !self.enable_cors
        &&& self.cors_origin@.len() == 0
    }
}

impl Default for RpcConfig {
    fn default() -> (config: Self)
        ensures
            config.is_default(),
    {
        RpcConfig {
            enabled: true,
            listen_addr: "127.0.0.1:8334".to_owned(),
            username: None,
            password: None,
            max_connections: 10,
            timeout: 30,
            enable_cors: false,
            cors_origin: Vec::new(),
        }
    }
}

#[derive(Debug, Clone)]
pub struct LoggingConfig {
    pub level: String,
    pub file_path: Option<String>,
    pub max_files: usize,
    pub max_size_mb: usize,
    pub enable_console: bool,
    pub enable_file: bool,
    pub log_network: bool,
    pub log_database: bool,
    pub log_consensus: bool,
}

impl LoggingConfig {
    /// The settings are the default ones.
    pub open spec fn is_default(&self) -> bool {
        &&& self.level@ == "info"@
        &&& self.file_path matches Some(path) && path@ == "logs/btpc.log"@
        &&& self.max_files == 7
        &&& self.max_size_mb == 100
        &&& self.enable_console
        &&& self.enable_file
        &&& self.log_network
        &&& self.log_database
        &&& self.log_consensus
    }
}

impl Default for LoggingConfig {
    fn default() -> (config: Self)
        ensures
            config.is_default(),
    {
        LoggingConfig {
            level: "info".to_owned(),
            file_path: Some("logs/btpc.log".to_owned()),
            max_files: 7,
            max_size_mb: 100,
            enable_console: true,
            enable_file: true,
            log_network: true,
            log_database: true,
            log_consensus: true,
        }
    }
}

#[derive(Debug, Clone)]
pub struct WalletConfig {
    pub enabled: bool,
    pub default_wallet: Option<String>,
    pub keypool_size: usize,
    pub transaction_fee: u64,
    pub reserve_balance: u64,
    pub avoid_reuse: bool,
    pub enable_psbt: bool,
}

impl WalletConfig {
    /// The settings are the default ones.
    pub open spec fn is_default(&self) -> bool {
        &&& self.enabled
        &&& self.default_wallet matches Some(name) && name@ == "default"@
        &&& self.keypool_size == 1000
        &&& self.transaction_fee == 1_000
        &&& self.reserve_balance == 0
        &&& self.avoid_reuse
        &&& self.enable_psbt
    }
}

impl Default for WalletConfig {
    fn default() -> (config: Self)
        ensures
            config.is_default(),
    {
        WalletConfig {
            enabled: true,
            default_wallet: Some("default".to_owned()),
            keypool_size: 1000,
            transaction_fee: 1_000,
            reserve_balance: 0,
            avoid_reuse: true,
            enable_psbt: true,
        }
    }
}

/// Settings of transport security. The rate limit period is in seconds.
#[derive(Debug, Clone)]
pub struct SecurityConfig {
    pub enable_tls: bool,
    pub cert_file: Option<String>,
    pub key_file: Option<String>,
    pub ca_file: Option<String>,
    pub require_client_cert: bool,
    pub max_request_size: usize,
    pub rate_limit_requests: u32,
    pub rate_limit_period: u64,
}

impl SecurityConfig {
    /// The settings are the default ones.
    pub open spec fn is_default(&self) -> bool {
        &&& !self.enable_tls
        &&& self.cert_file is None
        &&& self.key_file is None
        &&& self.ca_file is None
        &&& !self.require_client_cert
        &&& self.max_request_size == 16_777_216
        &&& self.rate_limit_requests == 1000
        &&& self.rate_limit_period == 60
    }
}

impl Default for SecurityConfig {
    fn default() -> (config: Self)
        ensures
            config.is_default(),
    {
        SecurityConfig {
            enable_tls: false,
            cert_file: None,
            key_file: None,
            ca_file: None,
            require_client_cert: false,
            max_request_size: 16_777_216,
            rate_limit_requests: 1000,
            rate_limit_period: 60,
        }
    }
}

/// The configuration of a node. The expiry of the memory pool is in seconds.
#[derive(Debug, Clone)]
pub struct Config {
    pub network: NetworkType,
    pub data_dir: String,
    pub user_agent: String,
    pub database: DatabaseConfig,
    pub network_config: NetworkConfig,
    pub mining: MiningConfig,
    pub rpc: RpcConfig,
    pub logging: LoggingConfig,
    pub wallet: WalletConfig,
    pub security: SecurityConfig,
    pub enable_testnet_faucet: bool,
    pub prune_blocks: bool,
    pub prune_depth: u32,
    pub max_mempool_size: usize,
    pub mempool_expiry: u64,
}

#[derive(Debug)]
pub enum ConfigError {
    IoError(String),
    ParseError(String),
    SerializeError(String),
    ValidationError(String),
}

impl ConfigError {
    /// The error in words.
    pub open spec fn text(&self) -> Seq<char> {
        match *self {
            ConfigError::IoError(detail) => "IO error: "@ + detail@,
            ConfigError::ParseError(detail) => "Parse error: "@ + detail@,
            ConfigError::SerializeError(detail) => "Serialize error: "@ + detail@,
            ConfigError::ValidationError(detail) => "Validation error: "@ + detail@,
        }
    }

    /// The error in words.
    pub fn message(&self) -> (text: String)
        ensures
            text@ == self.text(),
    {
        match self {
            ConfigError::IoError(detail) => "IO error: ".to_owned().concat(detail.as_str()),
            ConfigError::ParseError(detail) => "Parse error: ".to_owned().concat(detail.as_str()),
            ConfigError::SerializeError(detail) => "Serialize error: ".to_owned().concat(
                detail.as_str(),
            ),
            ConfigError::ValidationError(detail) => "Validation error: ".to_owned().concat(
                detail.as_str(),
            ),
        }
    }
}

/// A directory below another.
pub open spec fn joined(dir: Seq<char>, name: Seq<char>) -> Seq<char> {
    dir + "/"@ + name
}

fn join(dir: &str, name: &str) -> (path: String)
    ensures
        path@ == joined(dir@, name@),
{
    dir.to_owned().concat("/").concat(name)
}

impl Config {
    /// The configuration of a node of `network` with its data below
    /// `data_dir`: the defaults, the addresses of the network, the faucet on
    /// the test network and mining at the lowest difficulty on the
    /// regression-test network.
    pub fn new(network: NetworkType, data_dir: String) -> (config: Self)
        ensures
            config.network == network,
            config.data_dir == data_dir,
            config.user_agent@ == "BTPC-QRC/0.1.0"@,
            config.network_config.listen_addr@ == (match network {
                NetworkType::Mainnet => "0.0.0.0:8333"@,
                NetworkType::Testnet => "0.0.0.0:18333"@,
                NetworkType::Regtest => "0.0.0.0:18444"@,
            }),
            config.rpc.listen_addr@ == (match network {
                NetworkType::Mainnet => "127.0.0.1:8334"@,
                NetworkType::Testnet => "127.0.0.1:18334"@,
                NetworkType::Regtest => "127.0.0.1:18445"@,
            }),
            config.database.is_default(),
            config.logging.is_default(),
            config.wallet.is_default(),
            config.security.is_default(),
            config.network_config.differs_in_address_only(),
            config.rpc.differs_in_address_only(),
            config.mining.differs_in_target_only(),
            config.mining.block_reward == INITIAL_BLOCK_REWARD_SATS,
            config.mining.enabled == (network == NetworkType::Regtest),
            config.mining.difficulty_target == if network == NetworkType::Regtest {
                REGTEST_DIFFICULTY_TARGET
            } else {
                INITIAL_DIFFICULTY_TARGET
            },
            config.enable_testnet_faucet == (network == NetworkType::Testnet),
            !config.prune_blocks,
            config.prune_depth == 288,
            config.max_mempool_size == 314_572_800,
            config.mempool_expiry == 1_209_600,
    {
        let mut network_config = NetworkConfig::default();
        network_config.listen_addr = network.listen_address();
        let mut rpc = RpcConfig::default();
        rpc.listen_addr = network.rpc_address();
        let mut mining = MiningConfig::default();
        let mut enable_testnet_faucet: bool = false;
        match network {
            NetworkType::Testnet => {
                enable_testnet_faucet = true;
            },
            NetworkType::Regtest => {
                mining.difficulty_target = REGTEST_DIFFICULTY_TARGET;
                mining.enabled = true;
            },
            NetworkType::Mainnet => {},
        }
        Config {
            network,
            data_dir,
            user_agent: "BTPC-QRC/0.1.0".to_owned(),
            database: DatabaseConfig::default(),
            network_config,
            mining,
            rpc,
            logging: LoggingConfig::default(),
            wallet: WalletConfig::default(),
            security: SecurityConfig::default(),
            enable_testnet_faucet,
            prune_blocks: false,
            prune_depth: 288,
            max_mempool_size: 314_572_800,
            mempool_expiry: 1_209_600,
        }
    }

    pub fn get_network_magic(&self) -> (magic: u32)
        ensures
            magic == match self.network {
                NetworkType::Mainnet => 0xD9B4_BEF9u32,
                NetworkType::Testnet => 0x0709_110Bu32,
                NetworkType::Regtest => 0xDAB5_BFFAu32,
            },
    {
        self.network.magic_bytes()
    }

    pub fn get_network_port(&self) -> (port: u16)
        ensures
            port == match self.network {
                NetworkType::Mainnet => 8333u16,
                NetworkType::Testnet => 18333u16,
                NetworkType::Regtest => 18444u16,
            },
    {
        self.network.default_port()
    }

    pub fn get_rpc_port(&self) -> (port: u16)
        ensures
            port == match self.network {
                NetworkType::Mainnet => 8334u16,
                NetworkType::Testnet => 18334u16,
                NetworkType::Regtest => 18445u16,
            },
    {
        self.network.default_rpc_port()
    }

    pub fn get_genesis_timestamp(&self) -> (timestamp: u64)
        ensures
            timestamp == match self.network {
                NetworkType::Mainnet => 1_231_006_505u64,
                NetworkType::Testnet => 1_296_688_602u64,
                NetworkType::Regtest => 1_296_688_602u64,
            },
    {
        self.network.genesis_timestamp()
    }

    pub fn get_data_subdir(&self, subdir: &str) -> (path: String)
        ensures
            path@ == joined(self.data_dir@, subdir@),
    {
        join(self.data_dir.as_str(), subdir)
    }

    pub fn get_blocks_dir(&self) -> (path: String)
        ensures
            path@ == joined(self.data_dir@, "blocks"@),
    {
        self.get_data_subdir("blocks")
    }

    pub fn get_chainstate_dir(&self) -> (path: String)
        ensures
            path@ == joined(self.data_dir@, "chainstate"@),
    {
        self.get_data_subdir("chainstate")
    }

    pub fn get_wallets_dir(&self) -> (path: String)
        ensures
            path@ == joined(self.data_dir@, "wallets"@),
    {
        self.get_data_subdir("wallets")
    }

    pub fn get_logs_dir(&self) -> (path: String)
        ensures
            path@ == joined(self.data_dir@, "logs"@),
    {
        self.get_data_subdir("logs")
    }

    pub fn get_config_file(&self) -> (path: String)
        ensures
            path@ == joined(self.data_dir@, "config.toml"@),
    {
        self.get_data_subdir("config.toml")
    }

    pub fn get_peers_file(&self) -> (path: String)
        ensures
            path@ == joined(self.data_dir@, "peers.json"@),
    {
        self.get_data_subdir("peers.json")
    }
}

/// The configuration file of a network below the base directory: directly
/// below it on the main network, in a directory of its own on the others.
pub fn get_default_config_path(network: NetworkType, base_dir: &str) -> (path: String)
    ensures
        path@ == match network {
            NetworkType::Mainnet => joined(base_dir@, "config.toml"@),
            NetworkType::Testnet => joined(joined(base_dir@, "testnet"@), "config.toml"@),
            NetworkType::Regtest => joined(joined(base_dir@, "regtest"@), "config.toml"@),
        },
{
    match network {
        NetworkType::Mainnet => join(base_dir, "config.toml"),
        NetworkType::Testnet => {
            let dir = join(base_dir, "testnet");
            join(dir.as_str(), "config.toml")
        },
        NetworkType::Regtest => {
            let dir = join(base_dir, "regtest");
            join(dir.as_str(), "config.toml")
        },
    }
}

} // verus!
