[package]
name = "abuse_helper"
version = "0.1.0"
edition = "2021"
publish = false

[dependencies]
actix-web = "4"
bcrypt = "*"
chrono = { version = "0.4", features = ["serde"] }
deadpool-postgres = "*"
elasticsearch = "8.19.0-alpha.1"
env_logger = { version = "0.11", default-features = false, features = ["humantime"] }
futures = "0.3"
futures-util = "0.3"
imap = "2"
jsonwebtoken = "9"
lettre = { version = "0.11", features = ["tokio1", "tokio1-native-tls", "serde"] }
log = "0.4"
mailparse = "*"
native-tls = "0.2"
ollama-rs = "*"
reqwest = { version = "0.12", features = ["json"] }
serde = { version = "1", features = ["derive"] }
serde_json = "1"
thiserror = "*"
tokio-postgres = { version = "0.7", features = ["with-uuid-1", "with-chrono-0_4"] }
url = "2"
uuid = { version = "1", features = ["v4", "v5", "serde"] }
whois-rust = { version = "1", features = ["tokio"] }
