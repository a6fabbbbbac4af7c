[package]
name = "phlo_transform_engine"
version = "0.1.0"
edition = "2021"
publish = false

[dependencies]
sha2 = "0.10"
time = { version = "0.3", features = ["parsing", "formatting"] }
uuid = { version = "1", features = ["v4"] }
serde = { version = "1", features = ["derive"] }
serde_json = "1"
thiserror = "1"
async-trait = "0.1"
tokio = { version = "1", features = ["rt", "rt-multi-thread", "sync", "time", "macros"] }
rusqlite = { version = "0.31", features = ["bundled", "functions"] }
postgres = "0.19"
