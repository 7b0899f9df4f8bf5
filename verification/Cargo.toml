[package]
name = "jetfeed"
version = "0.1.0"
edition = "2021"
publish = false

[dependencies]
anyhow = "=1.0.104"
chrono = "=0.4.45"
futures-util = { version = "=0.3.34", features = ["sink"] }
http = "=1.5.0"
serde = { version = "=1.0.229", features = ["derive"] }
serde_json = "=1.0.154"
tokio = { version = "=1.54.1", features = ["macros", "net", "rt", "sync", "time"] }
tokio-util = "=0.7.20"
tokio-websockets = { version = "0.10", features = ["client", "fastrand", "rustls-webpki-roots", "sha1_smol"] }
tracing = "=0.1.44"
zstd = "=0.13.4"
