[package]
name = "pingultra"
version = "0.1.0"
edition = "2021"
publish = false

[dependencies]
anyhow = "1"
chrono = { version = "0.4", features = ["serde"] }
clap = { version = "4", features = ["derive"] }
colored = "2"
crossterm = "0.27"
csv = "1"
ctrlc = "3"
futures = "0.3"
ipnetwork = "=0.20.0"
pnet = "=0.34.0"
rand = "=0.8.8"
rusqlite = { version = "0.31", features = ["bundled", "chrono"] }
serde = { version = "1", features = ["derive"] }
serde_json = "1"
socket2 = { version = "=0.5.10", features = ["all"] }
thiserror = "1"
tokio = { version = "1", features = ["full"] }
