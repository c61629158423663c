[package]
name = "ore_pool"
version = "0.1.0"
edition = "2021"
publish = false

[dependencies]
drillx = "=2.2.0"
ore-api = "=3.6.0"
steel = "=4.0.9"
solana-program = "=2.3.0"
solana-sdk = "=2.3.1"
bincode = "=1.3.3"
bytemuck = { version = "=1.25.2", features = ["derive"] }
serde = { version = "=1.0.229", features = ["derive"] }
serde_json = "=1.0.154"
tokio = { version = "=1.54.1", features = ["full"] }
rand = "=0.8.8"
log = "=0.4.35"
anyhow = "=1.0.104"
futures = "=0.3.34"
num_enum = "=0.7.6"
env_logger = { version = "0.11", default-features = false }
core_affinity = "0.8"
tokio-tungstenite = "0.24"
