[package]
name = "kathputli"
version = "0.2.1"
edition = "2021"
publish = false

[dependencies]
anyhow = "1"
async-trait = "0.1"
futures-util = "0.3"
serde = { version = "1", features = ["derive", "rc"] }
tokio = { version = "1", features = ["macros", "rt", "rt-multi-thread", "sync", "time"] }
tokio-util = "0.7"
tracing = "0.1"
