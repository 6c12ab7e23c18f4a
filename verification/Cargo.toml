[package]
name = "adm"
version = "0.1.0"
edition = "2021"
publish = false

[dependencies]
serde = { version = "1", features = ["derive"] }
serde_json = "1"
toml = "*"
dirs = "*"
structopt = "*"
rumqtt = "*"
lifxi = "*"
futures = "*"
