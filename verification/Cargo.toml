[package]
name = "ledger"
version = "0.1.0"
edition = "2021"
publish = false

[dependencies]
time = { version = "0.3", features = ["formatting", "parsing", "serde", "serde-well-known", "macros"] }
axum = "0.7"
tokio = { version = "1", features = ["macros", "rt-multi-thread", "net", "sync"] }
serde = { version = "1", features = ["derive"] }
serde_json = "1"
