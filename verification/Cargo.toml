[package]
name = "file_sharing"
version = "0.1.0"
edition = "2021"
publish = false

[dependencies]
clap = { version = "=4.6.7", features = ["derive"] }
futures = "=0.3.34"
libp2p = { version = "=0.54.1", features = ["cbor", "ed25519", "macros", "mdns", "noise", "request-response", "tcp", "tokio", "yamux"] }
libp2p-stream = "=0.2.0-alpha"
log = "0.4"
pretty_env_logger = "0.5"
serde = { version = "1", features = ["derive"] }
sha2 = "0.11"
tokio = { version = "=1.54.1", features = ["fs", "io-std", "io-util", "macros", "rt-multi-thread", "sync"] }
