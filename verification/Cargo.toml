[package]
name = "eventsourcing"
version = "0.1.0"
edition = "2021"
publish = false

[dependencies]
uuid = { version = "1", features = ["v4"] }
serde = { version = "1", features = ["derive"] }
serde_json = "1"
eventstore = "2"
tokio = { version = "1", features = ["macros", "rt-multi-thread"] }
bytes = "1"
futures = "0.3"
async-nats = "0.33"
anyhow = "1"
