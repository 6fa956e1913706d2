[package]
name = "pfc-reservation"
version = "0.1.0"
edition = "2021"
publish = false

[dependencies]
anyhow = "1"
base64 = "=0.13.1"
chrono = { version = "0.4", features = ["serde"] }
dotenv = "*"
env_logger = "*"
log = "0.4"
postgres = { version = "0.19", features = ["with-uuid-0_8", "with-chrono-0_4", "with-serde_json-1"] }
rocket = { version = "0.5", features = ["json"] }
rocket_sync_db_pools = { version = "0.1", features = ["postgres_pool"] }
secp256k1 = "=0.20.3"
serde = { version = "1", features = ["derive"] }
serde_json = "1"
sha2 = "=0.9.9"
terra-rust-api = "*"
thread_local = "1"
uuid = { version = "=0.8.2", features = ["serde"] }
