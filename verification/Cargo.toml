[package]
name = "rubrix"
version = "0.1.0"
edition = "2021"
publish = false

[dependencies]
serde = { version = "1", features = ["derive"] }
serde_json = "1"
regex = "1"
htmlescape = "0.3"
urlencoding = "2"
zip = { version = "0.6", default-features = false, features = ["deflate"] }
sha2 = "0.10"
rand = "0.8"
chrono = "0.4"
once_cell = "1"
dotenvy = "0.15"
tokio = { version = "1", features = ["full"] }
reqwest = { version = "0.11", default-features = false, features = ["json", "rustls-tls"] }
futures-util = "0.3"
keyring = "2"
