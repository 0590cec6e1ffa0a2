[package]
name = "bpmn_engine"
version = "0.1.0"
edition = "2021"
publish = false

[dependencies]
quick-xml = "0.31"
chrono = "0.4"
serde = { version = "1", features = ["derive"] }
serde_json = "1"
thiserror = "1"
tokio = { version = "1", features = ["sync", "rt", "macros"] }
uuid = { version = "1", features = ["v4"] }
async-trait = "0.1"
