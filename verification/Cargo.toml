[package]
name = "bingo"
version = "0.1.0"
edition = "2021"
publish = false

[dependencies]
bevy = { version = "=0.12.1", default-features = false }
bevy_quinnet = "=0.6.0"
egui = { version = "=0.24.1", default-features = false }
rand = "=0.8.8"
serde = { version = "=1.0.229", features = ["derive"] }
thiserror = "=1.0.69"
tokio = { version = "=1.54.1", features = ["fs", "rt"] }
# bevy_quinnet 0.6.0 does not compile against tokio-util 0.7.20.
tokio-util = "=0.7.19"
toml = "=0.8.23"
