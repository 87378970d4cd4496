[package]
name = "signal_generator"
version = "0.1.0"
edition = "2021"
publish = false

[dependencies]
chrono = "=0.4.45"
uuid = { version = "=1.29.0", features = ["v4"] }
serde = { version = "=1.0.229", features = ["derive"] }
serde_json = "=1.0.154"
rand = "=0.8.8"
log = "=0.4.35"
env_logger = "=0.11.11"
tokio = { version = "=1.54.1", features = ["full"] }
actix = "=0.13.5"
actix-web = { version = "=4.18.1", default-features = false, features = ["macros", "ws"] }
actix-files = "=0.6.10"
actix-web-actors = "=4.3.1"
rumqttc = "=0.24.0"
rustls = "=0.22.4"
rustls-native-certs = "=0.7.3"
