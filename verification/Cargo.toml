[package]
name = "screeps_network"
version = "0.1.0"
edition = "2021"
publish = false

[dependencies]
futures = "=0.1.31"
hyper = "=0.12.36"
hyper-tls = "=0.3.2"
log = "0.4"
screeps-api = { version = "=0.6.0", default-features = false }
tokio-core = "=0.1.18"
websocket = { version = "=0.22.4", default-features = false, features = ["async-ssl"] }

# No code here names these two: they hold screeps-api to versions that it builds with.
serde = "=1.0.118"
serde_derive = "=1.0.118"

[dev-dependencies]
serde_json = "=1.0.64"
