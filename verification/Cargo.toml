[package]
name = "wifi_manager"
version = "0.1.0"
edition = "2021"
publish = false

[dependencies]
rand = "*"
zbus = "*"
serde = { version = "*", features = ["derive"] }
toml = "*"
log = "*"
env_logger = "*"
clap = { version = "*", features = ["derive"] }
futures-util = "*"
