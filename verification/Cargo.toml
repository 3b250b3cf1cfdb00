[package]
name = "dex"
version = "0.1.0"
edition = "2021"
publish = false

[dependencies]
unicode-segmentation = "*"
textwrap = "*"
chrono = "*"
termion = "*"
toml = "*"
serde = { version = "*", features = ["derive"] }
notify-rust = "*"
signal = "*"
log = "*"
pretty_env_logger = "*"
