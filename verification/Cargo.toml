[package]
name = "mumble-sip"
version = "0.1.0"
edition = "2021"
publish = false

[dependencies]
anyhow = "1"
async-trait = "0.1"
bytes = "1"
futures = "0.3"
hound = "3"
mumble-protocol-2x = "*"
names = { version = "0.14", default-features = false }
openssl = "0.10"
opus = "0.3"
reqwest = { version = "0.12", default-features = false }
ringbuf = "0.4"
serde = { version = "1", features = ["derive"] }
sqlx = { version = "0.8", default-features = false, features = ["runtime-tokio", "sqlite", "macros", "migrate"] }
tokio = { version = "1", features = ["full"] }
tokio-openssl = "0.6"
tokio-util = { version = "0.7", features = ["codec"] }
toml = "0.8"
tracing = "0.1"
tracing-subscriber = "0.3"
