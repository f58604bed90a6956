[package]
name = "pulsedb"
version = "0.8.0"
edition = "2021"
publish = false

[dependencies]
postcard = { version = "1", features = ["use-std"] }
serde = { version = "1", features = ["derive"] }
redb = "4"
fs2 = "0.4"
tracing = "0.1"
tokio = { version = "1", features = ["rt", "sync", "time", "macros"] }
async-trait = "0.1"
futures-core = "0.3"
thiserror = "2"
