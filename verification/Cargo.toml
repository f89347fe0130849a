[package]
name = "audio_batch_speedup"
version = "0.1.0"
edition = "2021"
publish = false

[dependencies]
anyhow = "*"
clap = { version = "*", features = ["derive"] }
indicatif = { version = "*", features = ["rayon"] }
log = "*"
pretty_env_logger = "*"
rayon = "*"
walkdir = "*"
