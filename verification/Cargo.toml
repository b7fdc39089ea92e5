[package]
name = "exonum_node"
version = "0.1.0"
edition = "2021"
publish = false

[dependencies]
hex = "0.4"
serde_json = "1"
serde = { version = "1", features = ["derive"] }
toml = "0.5"
chrono = "0.4"
failure = "0.1"
futures = "0.1"
tokio-core = "0.1"
tokio-threadpool = "0.1"
actix = { version = "0.7", default-features = false }
actix-web = { version = "0.7", default-features = false }
