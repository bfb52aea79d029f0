[package]
name = "planky"
version = "0.1.0"
edition = "2021"
publish = false

[dependencies]
chrono = "0.4"
serde = { version = "1", features = ["derive"] }
serde_json = "1"
reqwest = { version = "0.12", default-features = false, features = ["blocking", "json", "cookies", "multipart", "rustls-tls"] }
ratatui = "0.29"
crossterm = "0.28"
textwrap = "0.16"
notify-rust = "4"
