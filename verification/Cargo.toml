[package]
name = "spectral_play"
version = "0.1.0"
edition = "2021"
publish = false

[dependencies]
symphonia = { version = "0.5", features = ["all"] }
rustfft = "6"
clap = "3"
log = "0.4"
pretty_env_logger = "0.4"
