[package]
name = "sp1-helios-script"
version = "0.1.0"
edition = "2021"
publish = false

[dependencies]
anyhow = "1"
async-trait = "0.1"
futures = "0.3"
tokio = { version = "1", features = ["macros", "rt-multi-thread"] }
serde = { version = "1", features = ["derive"] }
serde_json = "1"
serde_cbor = "0.11"
log = "0.4"
dotenv = "0.15"
alloy-primitives = { version = "0.8", features = ["serde"] }
