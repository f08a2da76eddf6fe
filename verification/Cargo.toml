[package]
name = "watchfs"
version = "0.1.0"
edition = "2021"
publish = false

[dependencies]
regex = "*"
chrono = "*"
notify = "*"
timer = "*"
log = "*"
env_logger = "*"
