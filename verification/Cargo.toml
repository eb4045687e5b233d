[package]
name = "metanode"
version = "0.1.0"
edition = "2021"
publish = false

[dependencies]
anyhow = "1"
async-trait = "0.1"
base64 = "0.22"
bcs = "0.1"
fastcrypto = "0.1"
futures = "0.3"
hex = "0.4"
once_cell = "1"
prost = "0.13"
serde = { version = "1", features = ["derive"] }
sha3 = "0.10"
socket2 = "0.5"
tokio = { version = "1", features = ["full"] }
tracing = "0.1"
