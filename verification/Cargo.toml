[package]
name = "wwb"
version = "0.1.0"
edition = "2021"
publish = false

[dependencies]
bincode = "2"
chrono = "0.4"
ctrlc = "3"
env_logger = "0.11"
fastrand = "2"
locusts = "*"
log = "0.4"
