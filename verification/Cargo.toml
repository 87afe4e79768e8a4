[package]
name = "fz_stream_common"
version = "0.1.0"
edition = "2021"
publish = false

[dependencies]
lz4 = "*"
zstd = "*"
uuid = { version = "*", features = ["v4"] }
serde = { version = "*", features = ["derive"] }
serde_json = "*"
anyhow = "*"
