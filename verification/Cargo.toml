[package]
name = "ox_settings"
version = "0.1.0"
edition = "2021"
publish = false

[dependencies]
namecode = "=0.1.1"
ratatui = { version = "=0.30.2", default-features = false }
serde = { version = "1", features = ["derive"] }
serde_json = "1"
toml = "=0.9.8"
tracing = "0.1"
unicode-ident = "1"
