[package]
name = "shard_daemon"
version = "0.1.0"
edition = "2021"
publish = false

[dependencies]
axum = { version = "=0.8.9", features = ["ws"] }
futures = "=0.3.34"
libp2p = { version = "=0.57.0", features = ["tokio", "tcp", "dns", "websocket", "noise", "yamux", "gossipsub", "kad", "request-response", "cbor", "relay", "dcutr", "autonat", "identify", "ping", "quic", "macros"] }
serde = { version = "=1.0.229", features = ["derive"] }
serde_json = "=1.0.151"
tokio = { version = "=1.53.2", features = ["full"] }
tower-http = { version = "=0.7.1", features = ["cors"] }
tracing = "=0.1.44"
