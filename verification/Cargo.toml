[package]
name = "truent"
version = "0.4.1"
edition = "2021"
publish = false

[dependencies]
colored = "=2.2.0"
serde = { version = "=1.0.229", features = ["derive"] }
serde_json = "=1.0.154"
toml = "=0.8.23"
clap = { version = "=4.6.7", features = ["derive"] }
anyhow = "=1.0.104"
thiserror = "=1.0.69"
hex = "=0.4.3"
sha3 = "=0.10.9"
syn = { version = "=2.0.119", features = ["full"] }
quote = "=1.0.47"
