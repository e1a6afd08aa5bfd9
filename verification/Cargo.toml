[package]
name = "mcpg_control_plane_client"
version = "0.1.0"
edition = "2021"
publish = false

[dependencies]
aes-gcm = "0.10"
anyhow = "1"
arc-swap = "1"
async-trait = "0.1"
base64 = "0.22"
blake3 = "1"
chrono = { version = "0.4", features = ["serde"] }
futures = "0.3"
hkdf = "0.12"
humantime = "2"
parking_lot = "0.12"
prost = "0.13"
rand = "0.8"
serde = { version = "1", features = ["derive"] }
serde_json = "1"
sha2 = "0.10"
thiserror = "2"
tokio = { version = "1", features = ["macros", "rt-multi-thread", "sync", "time"] }
tokio-stream = "0.1"
tonic = { version = "0.12", features = ["tls"] }
tracing = "0.1"
uuid = { version = "1", features = ["v7"] }
