[package]
name = "rusty_stub_api"
version = "0.1.0"
edition = "2021"
publish = false

[dependencies]
actix-cors = "0.7"
actix-web = { version = "4", default-features = false, features = ["macros"] }
clap = { version = "4", features = ["derive"] }
env_logger = "*"
log = "0.4"
openapiv3 = "*"
regex = "1"
serde_json = "1"
serde_yaml = "0.9"
thiserror = "1"
