[package]
name = "clusterprep"
version = "0.1.0"
edition = "2021"
publish = false

[dependencies]
clap = { version = "*", features = ["derive"] }
curl = "*"
env_logger = "*"
flate2 = "*"
libsfasta = "*"
log = "*"
mimalloc = "*"
