[package]
name = "horizon_event_system"
version = "0.10.0"
edition = "2021"
publish = false

[dependencies]
uuid = { version = "1", features = ["v4", "serde"] }
serde = { version = "1", features = ["derive"] }
serde_json = "1"
tokio = { version = "1", features = ["sync", "time", "rt", "macros"] }
thiserror = "1"
tracing = "0.1"
rstar = "*"
flate2 = "1"
compact_str = "*"
async-trait = "*"
