[package]
name = "sncf_timer"
version = "0.1.0"
edition = "2021"
publish = false

[dependencies]
jiff = "0.2"
urlencoding = "2"
serde = { version = "1", features = ["derive"] }
serde_json = "1"
toml = "0.8"
reqwest = { version = "0.12", default-features = false, features = ["blocking", "json", "rustls-tls"] }
crossterm = "0.28"
ratatui = "0.29"
tui-big-text = "0.7"
notify-rust = "4"
dotenvy = "0.15"
anyhow = "1"
