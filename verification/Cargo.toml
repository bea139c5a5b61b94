[package]
name = "piko"
version = "0.1.0"
edition = "2021"
publish = false

[dependencies]
sha2 = "=0.10.9"
chrono = { version = "=0.4.45", default-features = false, features = ["clock", "std", "serde"] }
rand = "=0.8.8"
serde = { version = "=1.0.229", features = ["derive"] }
serde_cbor = "=0.11.2"
tokio = { version = "=1.54.1", features = ["rt-multi-thread", "net", "io-util", "time", "sync"] }
crossbeam-channel = "=0.5.17"
rayon = "=1.12.0"
log = "=0.4.34"
fern = { version = "=0.6.2", features = ["colored"] }
config = { version = "=0.13.4", default-features = false, features = ["toml"] }
clokwerk = "=0.4.0"
