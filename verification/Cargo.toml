[package]
name = "sytui"
version = "0.1.0"
edition = "2021"
publish = false

[dependencies]
unicode-width = "*"
tokio = { version = "*", features = ["full"] }
crossterm = { version = "*", features = ["event-stream"] }
ratatui = "*"
futures-util = "*"
serde = { version = "*", features = ["derive"] }
serde_json = "*"
reqwest = { version = "*", default-features = false, features = ["json"] }
