[package]
name = "rust_dcp"
version = "0.1.0"
edition = "2021"
publish = false

[dependencies]
base64 = "0.22"
bytes = "1"
couchbase = "1"
futures-util = "0.3"
getrandom = "0.3"
hmac = "0.12"
pbkdf2 = "0.12"
rustls-native-certs = "0.8"
rustls-pemfile = "2"
serde = { version = "1", features = ["derive"] }
serde_json = "1"
sha1 = "0.10"
sha2 = "0.10"
subtle = "2"
thiserror = "2"
tokio = { version = "1", features = ["io-util", "macros", "net", "rt", "rt-multi-thread", "sync", "time"] }
tokio-rustls = "0.26"
tracing = "0.1"
zeroize = "1"
