[package]
name = "fluxara"
version = "0.1.0"
edition = "2021"
publish = false

[dependencies]
anyhow = "1"
async-trait = "0.1"
thiserror = "1"
tokio = { version = "1", features = ["rt", "time", "macros"] }
tracing = "0.1"
tracing-subscriber = "0.3"

[dev-dependencies]
toml = "0.8"
