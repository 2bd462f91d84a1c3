[package]
name = "hfs_rs"
version = "0.1.0"
edition = "2021"
publish = false

[dependencies]
percent-encoding = "2"
base64 = "0.22"
mime_guess = "2"
serde = { version = "1", features = ["derive"] }
serde_json = "1"
anyhow = "1"
thiserror = "2"
chrono = "0.4"
bytes = "1"
futures-core = "0.3"
futures-util = "0.3"
http-body-util = "0.1"
hyper = { version = "1", features = ["server", "http1", "http2"] }
hyper-util = { version = "0.1", features = ["tokio", "server", "server-auto", "http1", "http2"] }
tokio = { version = "1", features = ["rt-multi-thread", "net", "fs", "io-util", "macros", "time", "sync"] }
tokio-util = { version = "0.7", features = ["io"] }
parking_lot = "0.12"
uuid = { version = "1", features = ["v4"] }
unicode-segmentation = "1"
