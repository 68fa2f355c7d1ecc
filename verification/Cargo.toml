[package]
name = "rule_engine"
version = "0.1.0"
edition = "2021"
publish = false

[dependencies]
regex = "1"
once_cell = "1"
petgraph = "0.6"
serde = { version = "1", features = ["derive"] }
serde_json = "1"
thiserror = "1"
tracing = "0.1"
hashbrown = "0.14"
parking_lot = "0.12"
rayon = "1"
futures = "0.3"
async-trait = "0.1"
tokio = { version = "1", features = ["rt-multi-thread", "macros", "sync", "time"] }
reqwest = { version = "0.12", default-features = false, features = ["json"] }
