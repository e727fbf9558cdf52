[package]
name = "wconnect"
version = "0.1.0"
edition = "2021"
publish = false

[dependencies]
sha2 = "0.10"
base64 = "0.21"
serde = { version = "1", features = ["derive"] }
serde_json = "1"
rmp-serde = "1"
tokio = { version = "1", features = ["rt-multi-thread", "net", "io-util", "sync", "time", "macros", "signal"] }
rustls = "0.21"
tokio-rustls = "0.24"
rustls-pemfile = "1"
rcgen = "0.11"
dirs = "5"
