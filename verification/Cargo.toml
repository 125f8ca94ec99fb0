[package]
name = "vimcord"
version = "0.1.0"
edition = "2021"
publish = false

[dependencies]
unicode-width = "*"
serde = { version = "1", features = ["derive"] }
serde_json = "1"
tokio = { version = "1", features = ["full"] }
reqwest = { version = "*", default-features = false, features = ["json", "rustls-tls"] }
tokio-tungstenite = { version = "*", features = ["rustls-tls-webpki-roots"] }
futures-util = "*"
crossterm = "*"
ratatui = "*"
chrono = "*"
dirs = "*"
dotenvy = "*"
uuid = { version = "*", features = ["v4"] }
notify-rust = "*"
