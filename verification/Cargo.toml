[package]
name = "bubocore"
version = "0.1.0"
edition = "2021"
publish = false

[dependencies]
rand = "*"
rosc = "*"
serde = { version = "*", features = ["derive"] }
serde_json = "*"
crossbeam-channel = "*"
tokio = { version = "*", features = ["full"] }
thread-priority = "*"
directories = "*"
notify = "*"
toml = "*"
midir = "*"
