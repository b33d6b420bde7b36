[package]
name = "brim"
version = "0.1.0"
edition = "2021"
publish = false

[dependencies]
sha2 = "=0.11.1"
serde = { version = "=1.0.229", features = ["derive"] }
serde_json = "=1.0.154"
reqwest = { version = "=0.12.28", default-features = false, features = ["json", "rustls-tls"] }
tokio = { version = "=1.54.1", features = ["full"] }
clap = "=4.6.7"
console = "=0.16.6"
dialoguer = "=0.12.0"
crossterm = "=0.29.0"
ratatui = "=0.30.2"
model-context-protocol = { version = "=0.2.2", features = ["stdio-server"] }
