[package]
name = "aim_trainer"
version = "0.1.0"
edition = "2021"
publish = false

[dependencies]
png = "0.18"
rand = "0.8"
rodio = "0.21"
serde = { version = "1", features = ["derive"] }
softbuffer = "0.4"
supports-color = "3"
thiserror = "1"
toml = "0.8"
winit = "0.29"
