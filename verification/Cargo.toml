[package]
name = "likedl"
version = "0.1.0"
edition = "2021"
publish = false

[dependencies]
url = "=2.5.8"
serde = { version = "=1.0.229", features = ["derive"] }
serde_json = "=1.0.151"
reqwest = { version = "=0.13.5", default-features = false, features = ["json", "query"] }
tokio = { version = "=1.53.2", features = ["rt-multi-thread", "macros", "fs", "io-util", "time", "sync"] }
indicatif = "=0.18.6"
sysproxy = "=0.3.0"
smol = "=2.0.2"
async-native-tls = "=0.6.0"
bytes = "=1.12.1"
