[package]
name = "android_mic"
version = "0.1.0"
edition = "2021"
publish = false

[dependencies]
rtrb = "*"
byteordered = "*"
cpal = "*"
clap = { version = "*", features = ["derive"] }
env_logger = "*"
local-ip-address = "*"
log = "*"
