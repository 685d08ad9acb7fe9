[package]
name = "sentinel_agent"
version = "0.1.0"
edition = "2021"
publish = false

[dependencies]
anyhow = "1"
blake3 = "1"
dashmap = "5.5"
hex = "0.4"
hostname = "0.3"
serde = { version = "1", features = ["derive"] }
sha2 = "0.10"
tokio = { version = "1", features = ["macros", "rt-multi-thread", "sync", "time"] }
tracing = "0.1"
tracing-subscriber = { version = "0.3", features = ["env-filter"] }
uuid = { version = "1", features = ["v4"] }
windows = { version = "0.48", features = ["Win32_Foundation", "Win32_System_Diagnostics_Etw"] }
