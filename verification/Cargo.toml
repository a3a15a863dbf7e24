[package]
name = "althemer"
version = "0.1.0"
edition = "2021"
publish = false

[dependencies]
clap = { version = "4", features = ["derive"] }
clap_complete = "4"
crossterm = "*"
dirs = "*"
futures-util = "0.3"
indicatif = "*"
inquire = "*"
nucleo-picker = "*"
ratatui = "*"
relative-luminance = "*"
reqwest = { version = "0.12", default-features = false, features = ["json", "stream", "rustls-tls"] }
serde = { version = "1", features = ["derive"] }
serde_json = "1"
shellexpand = "*"
thiserror = "*"
tokio = { version = "1", features = ["fs", "io-util", "rt-multi-thread", "macros"] }
toml = "*"
