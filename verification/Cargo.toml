[package]
name = "localsend"
version = "0.1.0"
edition = "2021"
publish = false

[dependencies]
anyhow = "1"
base64 = "=0.22.1"
bytes = "1"
futures-util = "0.3"
iroh = { version = "=1.4.1", default-features = false, features = ["tls-ring"] }
iroh-blobs = { version = "=0.104.0", default-features = false, features = ["fs-store"] }
jni = "=0.21.1"
serde = { version = "1", features = ["derive"] }
serde_json = "=1.0.154"
tokio = { version = "1", features = ["fs", "net", "rt", "sync", "time", "macros"] }
tracing = "0.1"
uuid = { version = "=1.29.0", features = ["v4"] }
