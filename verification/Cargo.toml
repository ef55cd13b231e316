[package]
name = "granite2"
version = "0.1.0"
edition = "2021"
publish = false

[dependencies]
netcrab = "*"
clap = { version = "4", features = ["derive"] }
clap-verbosity-flag = "2"
env_logger = "0.10"
log = "0.4"
