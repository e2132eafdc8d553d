[package]
name = "appserv"
version = "0.1.0"
edition = "2021"
publish = false

[dependencies]
ring = "=0.17.14"
data-encoding = "=2.11.1"
nanoid = "=0.5.0"
chrono = "=0.4.45"
rand = "=0.10.3"
axum = { version = "=0.8.9", features = ["multipart"] }
tokio = { version = "=1.53.2", features = ["rt-multi-thread", "macros", "net", "signal", "time"] }
serde = { version = "=1.0.229", features = ["derive"] }
serde_json = "=1.0.151"
toml = "=1.1.7"
lettre = { version = "=0.11.23", default-features = false, features = ["smtp-transport", "builder"] }
jsonwebtoken = "=11.1.0"
base64 = "=0.23.1"
