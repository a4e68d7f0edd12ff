[package]
name = "minotari"
version = "0.1.0"
edition = "2021"
publish = false

[dependencies]
anyhow = "=1.0.104"
chrono = { version = "=0.4.45", features = ["serde"] }
hex = "=0.4.3"
log = { version = "=0.4.35", features = ["kv"] }
r2d2 = "=0.8.10"
r2d2_sqlite = { version = "=0.35.0", features = ["bundled"] }
rusqlite = { version = "=0.40.2", features = ["bundled", "chrono"] }
serde = { version = "=1.0.229", features = ["derive"] }
serde_json = "=1.0.154"
serde_rusqlite = "=0.43.0"
tari_common_types = "=6.2.0"
tari_script = "=6.2.0"
tari_transaction_components = "=6.2.0"
tari_utilities = "=0.10.0"
uuid = { version = "=1.29.0", features = ["v4"] }
