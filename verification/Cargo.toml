[package]
name = "zap"
version = "0.1.0"
edition = "2021"
publish = false

[dependencies]
colored = "*"
gumdrop = "*"
handlebars = "*"
log = "*"
pretty_env_logger = "*"
serde = { version = "1", features = ["derive"] }
serde_json = "*"
serde_yaml = "*"
ssh2 = "*"
