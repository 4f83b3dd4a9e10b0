[package]
name = "coinched"
version = "0.1.0"
edition = "2021"
publish = false

[dependencies]
rand = "*"
time = "*"
rustc-serialize = "*"
eventual = "*"
iron = "*"
bodyparser = "*"
url = "*"
clap = "*"
log = "*"
env_logger = "*"
serde = "*"
serde_derive = "*"
