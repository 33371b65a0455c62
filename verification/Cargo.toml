[package]
name = "ate_chip"
version = "0.1.0"
edition = "2021"
publish = false

[dependencies]
owo-colors = "3"
rand = "0.8"
sdl2 = "0.35"
clap = { version = "3", features = ["derive", "cargo"] }
env_logger = "0.9"
log = "0.4"
thiserror = "1"
