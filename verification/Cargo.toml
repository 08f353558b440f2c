[package]
name = "alyson"
version = "0.1.0"
edition = "2021"
publish = false

[dependencies]
tokio = { version = "1", features = ["full"] }
serde = { version = "1", features = ["derive"] }
bincode = "1"
thiserror = "2"
crossterm = "0.28"
ratatui = "0.29"
