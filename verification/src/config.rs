//! Configuration vocabulary: serialization and compression identifiers, the
//! client/server settings structs, and a builder for the client settings.

use vstd::prelude::*;

verus! {

/// Declares how a payload's bytes were produced. The envelope carries it as a
/// declaration only and never interprets it.
#[derive(Clone, Copy, Debug, PartialEq, Eq, Structural)]
pub enum SerializationProtocol {
    JSON,
    Bincode,
    Auto,
}

impl Default for SerializationProtocol {
    fn default() -> (r: Self)
        ensures
            r == SerializationProtocol::Auto,
    {
        SerializationProtocol::Auto
    }
}

/// A requested compression algorithm together with its level: the LZ4 family
/// in fast or high-compression mode, or the Zstd family at a named level.
#[derive(Clone, Copy, Debug, PartialEq, Eq, Structural)]
pub enum CompressionLevel {
    NoCompression,
    LZ4Fast,
    LZ4High,
    ZstdFast,
    ZstdMedium,
    ZstdHigh,
    ZstdMax,
}

impl Default for CompressionLevel {
    fn default() -> (r: Self)
        ensures
            r == CompressionLevel::LZ4Fast,
    {
        CompressionLevel::LZ4Fast
    }
}

/// The algorithm family behind a `CompressionLevel`.
#[derive(Clone, Copy, Debug, PartialEq, Eq, Structural)]
pub enum CompressionType {
    NoCompression,
    LZ4,
    Zstd,
}

/// The family that a compression level belongs to.
pub open spec fn spec_family_of(level: CompressionLevel) -> CompressionType {
    match level {
        CompressionLevel::NoCompression => CompressionType::NoCompression,
        CompressionLevel::LZ4Fast | CompressionLevel::LZ4High => CompressionType::LZ4,
        CompressionLevel::ZstdFast
        | CompressionLevel::ZstdMedium
        | CompressionLevel::ZstdHigh
        | CompressionLevel::ZstdMax => CompressionType::Zstd,
    }
}

impl From<CompressionLevel> for CompressionType {
    fn from(level: CompressionLevel) -> (r: Self) {
        match level {
            CompressionLevel::NoCompression => CompressionType::NoCompression,
            CompressionLevel::LZ4Fast | CompressionLevel::LZ4High => CompressionType::LZ4,
            CompressionLevel::ZstdFast
            | CompressionLevel::ZstdMedium
            | CompressionLevel::ZstdHigh
            | CompressionLevel::ZstdMax => CompressionType::Zstd,
        }
    }
}

impl vstd::std_specs::convert::FromSpecImpl<CompressionLevel> for CompressionType {
    open spec fn obeys_from_spec() -> bool {
        true
    }

    open spec fn from_spec(level: CompressionLevel) -> Self {
        spec_family_of(level)
    }
}

/// A named bundle of serialization and compression choices.
#[derive(Clone, Debug)]
pub struct PerformanceProfile {
    pub name: String,
    pub description: String,
    pub serialization: SerializationProtocol,
    pub compression: CompressionLevel,
    /// 0 means highest priority.
    pub priority: u8,
    pub use_cases: Vec<String>,
}

/// Hand-tuned settings that override a profile.
#[derive(Clone, Debug)]
pub struct CustomSettings {
    pub serialization_protocol: SerializationProtocol,
    pub compression_level: CompressionLevel,
    pub enable_metrics: bool,
    /// Allow the server to suggest protocol switching.
    pub adaptive_protocol: bool,
    /// Target latency for automatic optimization, in microseconds.
    pub latency_target_us: Option<u64>,
    /// Bandwidth limit affecting the compression choice, in kbit/s.
    pub bandwidth_limit_kbps: Option<u64>,
    /// Message size threshold for protocol selection, in bytes.
    pub message_size_threshold: usize,
}

/// Settings for switching profiles automatically.
#[derive(Clone, Debug)]
pub struct AutoOptimizationConfig {
    pub enabled: bool,
    /// Switch protocols when the performance difference exceeds this many
    /// thousandths of the baseline.
    pub switch_threshold_permille: u64,
    /// Minimum samples needed before a decision is made.
    pub min_samples: usize,
    /// Length of the evaluation window, in seconds.
    pub evaluation_window_secs: u64,
}

/// Connection settings for a stream client. Intervals and timeouts are in
/// milliseconds.
#[derive(Clone, Debug)]
pub struct StreamClientConfig {
    pub server_address: String,
    pub server_name: String,
    pub auth_token: Option<String>,
    pub protocol: SerializationProtocol,
    pub compression: CompressionLevel,
    pub auto_reconnect: bool,
    pub reconnect_interval_ms: u64,
    pub max_reconnect_attempts: u32,
    pub connection_timeout_ms: u64,
    pub keep_alive_interval_ms: u64,
}

impl Default for StreamClientConfig {
    fn default() -> (r: Self)
        ensures
            r.server_address@ == "127.0.0.1:8080"@,
            r.server_name@ == "localhost"@,
            r.auth_token is None,
            r.protocol == SerializationProtocol::Auto,
            r.compression == CompressionLevel::LZ4Fast,
            r.auto_reconnect == true,
            r.reconnect_interval_ms == 5000,
            r.max_reconnect_attempts == 10,
            r.connection_timeout_ms == 10000,
            r.keep_alive_interval_ms == 30000,
    {
        StreamClientConfig {
            server_address: String::from_str("127.0.0.1:8080"),
            server_name: String::from_str("localhost"),
            auth_token: None,
            protocol: SerializationProtocol::Auto,
            compression: CompressionLevel::LZ4Fast,
            auto_reconnect: true,
            reconnect_interval_ms: 5000,
            max_reconnect_attempts: 10,
            connection_timeout_ms: 10000,
            keep_alive_interval_ms: 30000,
        }
    }
}

/// Advanced per-client configuration: a current profile name, the catalog of
/// available profiles, and the override settings.
#[derive(Clone, Debug)]
pub struct ClientConfig {
    pub client_id: String,
    pub current_profile: String,
    pub custom_settings: CustomSettings,
    pub available_profiles: Vec<PerformanceProfile>,
    pub auto_optimization: AutoOptimizationConfig,
}

/// Settings for a stream server.
#[derive(Clone, Debug)]
pub struct ServerConfig {
    pub bind_address: String,
    pub num_workers: Option<usize>,
    pub auth_secret_key: Option<String>,
    pub enable_stats_reporter: bool,
    pub heartbeat_interval_secs: u64,
    pub idle_timeout_secs: u64,
}

impl Default for ServerConfig {
    fn default() -> (r: Self)
        ensures
            r.bind_address@ == "127.0.0.1:8080"@,
            r.num_workers is None,
            r.auth_secret_key is None,
            r.enable_stats_reporter == true,
            r.heartbeat_interval_secs == 30,
            r.idle_timeout_secs == 300,
    {
        ServerConfig {
            bind_address: String::from_str("127.0.0.1:8080"),
            num_workers: None,
            auth_secret_key: None,
            enable_stats_reporter: true,
            heartbeat_interval_secs: 30,
            idle_timeout_secs: 300,
        }
    }
}

/// Builds a `StreamClientConfig` field by field, starting from the defaults.
pub struct ConfigBuilder {
    pub config: StreamClientConfig,
}

impl ConfigBuilder {
    pub fn new() -> (r: Self)
        ensures
            r.config.server_address@ == "127.0.0.1:8080"@,
            r.config.server_name@ == "localhost"@,
            r.config.auth_token is None,
            r.config.protocol == SerializationProtocol::Auto,
            r.config.compression == CompressionLevel::LZ4Fast,
            r.config.auto_reconnect == true,
            r.config.reconnect_interval_ms == 5000,
            r.config.max_reconnect_attempts == 10,
            r.config.connection_timeout_ms == 10000,
            r.config.keep_alive_interval_ms == 30000,
    {
        ConfigBuilder { config: StreamClientConfig::default() }
    }

    pub fn server_address(self, address: String) -> (r: Self)
        ensures
            r.config == (StreamClientConfig { server_address: address, ..self.config }),
    {
        let mut config = self.config;
        config.server_address = address;
        ConfigBuilder { config }
    }

    pub fn server_name(self, name: String) -> (r: Self)
        ensures
            r.config == (StreamClientConfig { server_name: name, ..self.config }),
    {
        let mut config = self.config;
        config.server_name = name;
        ConfigBuilder { config }
    }

    pub fn auth_token(self, token: String) -> (r: Self)
        ensures
            r.config == (StreamClientConfig { auth_token: Some(token), ..self.config }),
    {
        let mut config = self.config;
        config.auth_token = Some(token);
        ConfigBuilder { config }
    }

    pub fn protocol(self, protocol: SerializationProtocol) -> (r: Self)
        ensures
            r.config == (StreamClientConfig { protocol, ..self.config }),
    {
        let mut config = self.config;
        config.protocol = protocol;
        ConfigBuilder { config }
    }

    pub fn compression(self, compression: CompressionLevel) -> (r: Self)
        ensures
            r.config == (StreamClientConfig { compression, ..self.config }),
    {
        let mut config = self.config;
        config.compression = compression;
        ConfigBuilder { config }
    }

    pub fn auto_reconnect(self, enabled: bool) -> (r: Self)
        ensures
            r.config == (StreamClientConfig { auto_reconnect: enabled, ..self.config }),
    {
        let mut config = self.config;
        config.auto_reconnect = enabled;
        ConfigBuilder { config }
    }

    pub fn reconnect_interval(self, interval_ms: u64) -> (r: Self)
        ensures
            r.config == (StreamClientConfig { reconnect_interval_ms: interval_ms, ..self.config }),
    {
        let mut config = self.config;
        config.reconnect_interval_ms = interval_ms;
        ConfigBuilder { config }
    }

    pub fn max_reconnect_attempts(self, attempts: u32) -> (r: Self)
        ensures
            r.config == (StreamClientConfig { max_reconnect_attempts: attempts, ..self.config }),
    {
        let mut config = self.config;
        config.max_reconnect_attempts = attempts;
        ConfigBuilder { config }
    }

    pub fn connection_timeout(self, timeout_ms: u64) -> (r: Self)
        ensures
            r.config == (StreamClientConfig { connection_timeout_ms: timeout_ms, ..self.config }),
    {
        let mut config = self.config;
        config.connection_timeout_ms = timeout_ms;
        ConfigBuilder { config }
    }

    pub fn keep_alive_interval(self, interval_ms: u64) -> (r: Self)
        ensures
            r.config == (StreamClientConfig { keep_alive_interval_ms: interval_ms, ..self.config }),
    {
        let mut config = self.config;
        config.keep_alive_interval_ms = interval_ms;
        ConfigBuilder { config }
    }

    pub fn build(self) -> (r: StreamClientConfig)
        ensures
            r == self.config,
    {
        self.config
    }
}

} // verus!
