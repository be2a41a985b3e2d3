[package]
name = "mockbox"
version = "0.1.0"
edition = "2021"
publish = false

[dependencies]
anyhow = "1"
axum = "0.8"
bytes = "1"
clap = { version = "4", features = ["derive", "env"] }
directories = "6"
is-root = "*"
notify = "8"
parking_lot = "0.12"
privdrop = "0.5"
rand = "0.10"
reqwest = { version = "0.12", default-features = false }
rune = "0.14"
rune-modules = "0.14"
rugen = "0.17"
serde_json = "1"
tokio = { version = "1", features = ["full"] }
tracing = "0.1"
tracing-subscriber = "0.3"
