[package]
name = "payments_engine"
version = "0.1.0"
edition = "2021"
publish = false

[dependencies]
rust_decimal = "1"
hashbrown = "*"
serde = { version = "1", features = ["derive"] }
csv = "1"
tokio = { version = "1", features = ["rt-multi-thread", "macros", "sync"] }
tokio-util = "*"
futures = "0.3"
eyre = "*"
clap = { version = "4", features = ["derive"] }
thiserror = "*"
tracing = "*"
tracing-subscriber = { version = "*", features = ["env-filter"] }
