[package]
name = "nexus_relay"
version = "0.1.0"
edition = "2021"
publish = false

[dependencies]
base64 = "*"
uuid = { version = "*", features = ["v4"] }
anyhow = "*"
bytes = "*"
clap = { version = "*", features = ["derive", "env"] }
http-body-util = "*"
hyper = { version = "*", features = ["server", "http1"] }
hyper-util = { version = "*", features = ["tokio"] }
reqwest = { version = "*", default-features = false }
tokio = { version = "*", features = ["full"] }
tokio-postgres = "*"
tracing = "*"
tracing-subscriber = { version = "*", features = ["env-filter"] }

[dev-dependencies]
serde_json = "*"
