[package]
name = "commander"
version = "0.1.0"
edition = "2021"
publish = false

[dependencies]
arboard = { version = "3", default-features = false }
crossterm = "*"
dirs = "6"
futures = "0.3"
rand = "0.9"
ratatui = "*"
ratatui-hypertile = "*"
ratatui-hypertile-extras = "*"
serde = { version = "1", features = ["derive"] }
serde_json = { version = "1", features = ["float_roundtrip"] }
tokio = { version = "1", features = ["full"] }
tokio-tungstenite = "*"
unicode-width = "0.2"
uuid = { version = "1", features = ["v4"] }
warp = "0.3"
