//! Shared vocabulary for a high-frequency event streaming pipeline.
//!
//! The crate covers three cooperating pieces:
//!
//! * a codec abstraction that maps a requested compression identifier to a
//!   concrete algorithm and level and performs the forward and inverse
//!   transforms (`compression`);
//! * the self-describing event envelope that couples a payload to its
//!   serialization/compression metadata and latency timestamps, including the
//!   "compress only if it helps" construction policy and its exact-inverse
//!   decoding (`events`);
//! * a compression statistics aggregator with bounded-retention, per-event-type
//!   rolling metrics (`compression_stats`).
//!
//! Configuration types, a small token-matching authentication gate, and the
//! builder for client settings round the crate out (`config`, `auth`).

pub mod auth;
mod clock;
pub mod compression;
pub mod compression_stats;
pub mod config;
pub mod events;

pub use auth::{AuthMessage, AuthResponse, AuthTokenValidator, TokenClaims};
pub use compression::{
    CodecError, CompressionConfig, CompressionInfo, CompressionStats, compress_data,
    decompress_data,
};
pub use compression_stats::{
    AggregatedStats, CompressionStatsCollector, CompressionStatsConfig, CompressionTrialResult,
    EventCompressionStats,
};
pub use config::{
    AutoOptimizationConfig, ClientConfig, CompressionLevel, CompressionType, ConfigBuilder,
    CustomSettings, PerformanceProfile, SerializationProtocol, ServerConfig, StreamClientConfig,
};
pub use events::{
    EventMessage, EventStats, EventType, EventTypeFilter, ParsedEventData, TransactionEvent,
};
