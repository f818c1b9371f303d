[package]
name = "trdelnik"
version = "0.1.0"
edition = "2021"
publish = false

[dependencies]
rand = "=0.8.8"
strip-ansi-escapes = "=0.2.1"
syn = { version = "=1.0.109", features = ["full"] }
quote = "=1.0.47"
proc-macro2 = "=1.0.107"
toml = "=0.5.11"
thiserror = "=1.0.69"
clap = { version = "=3.2.25", features = ["derive"] }
tokio = { version = "=1.54.1", features = ["full"] }
cargo_metadata = "=0.15.4"
futures = "=0.3.34"
anymap = "=0.12.1"
tracing = "=0.1.44"
tracing-subscriber = "=0.3.23"
symlink = "=0.1.0"
crossbeam-channel = "=0.5.17"
bincode = "=1.3.3"
borsh = "=0.9.3"
serde = "=1.0.229"
anyhow = "=1.0.104"
