[package]
name = "trailing_stop"
version = "0.1.0"
edition = "2021"
publish = false

[dependencies]
binance = "=0.13.3"
chrono = "=0.4.45"
console = "=0.16.6"
dialoguer = "=0.12.0"
serde = { version = "=1.0.229", features = ["derive"] }
toml = "=1.1.8"
