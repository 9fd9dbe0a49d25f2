[package]
name = "chc_service"
version = "0.1.0"
edition = "2021"
publish = false

[dependencies]
anyhow = "1"
axum = "0.7"
clap = { version = "4", features = ["derive"] }
holo_hash = { version = "=0.4.4", features = ["encoding"] }
holochain_integrity_types = "=0.4.4"
holochain_serialized_bytes = "=0.0.55"
parking_lot = "0.12"
portpicker = "0.1"
rmp-serde = "=1.3.0"
serde = { version = "1", features = ["derive"] }
serde_bytes = "0.11"
thiserror = "1"
tokio = { version = "1", features = ["macros", "net", "rt-multi-thread"] }
tracing = "0.1"
tracing-subscriber = { version = "0.3", features = ["env-filter"] }
