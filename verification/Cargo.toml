[package]
name = "reclaw_cli"
version = "0.1.0"
edition = "2021"
publish = false

[dependencies]
clap = { version = "*", features = ["derive"] }
reqwest = { version = "*", default-features = false, features = ["blocking"] }
serde_json = "*"
thiserror = "*"
tungstenite = "*"
