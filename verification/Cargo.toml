[package]
name = "torrent_client"
version = "0.1.0"
edition = "2021"
publish = false

[dependencies]
bendy = { version = "0.3", features = ["serde"] }
bytes = "1"
env_logger = "0.11"
hex = "0.4"
log = "0.4"
rand = "0.8"
reqwest = { version = "0.11", default-features = false }
serde = { version = "1", features = ["derive"] }
serde_bencode = "0.2"
serde_json = "1"
sha1 = "0.10"
thiserror = "1"
tokio = { version = "1", features = ["full"] }
url = "2"
urlencoding = "2"
