[package]
name = "globalchat"
version = "0.1.0"
edition = "2021"
publish = false

[dependencies]
anyhow = "1"
dotenvy = "0.15"
env_logger = "0.10"
log = "0.4"
reqwest = { version = "0.11", default-features = false, features = ["rustls-tls"] }
sqlx = { version = "0.7", default-features = false, features = ["runtime-tokio", "mysql", "migrate"] }
tokio = { version = "1", features = ["rt-multi-thread", "macros", "sync"] }
twilight-cache-inmemory = "0.15"
twilight-gateway = "0.15"
twilight-http = "0.15"
twilight-model = "0.15"
