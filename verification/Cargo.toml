[package]
name = "minecraft-relay"
version = "0.1.0"
edition = "2021"
publish = false

[dependencies]
anyhow = "1"
async-channel = "1"
async-io = "1"
async-net = "1"
bytes = "1"
env_logger = { version = "0.8", default-features = false, features = ["termcolor", "atty", "humantime"] }
futures-lite = "1"
log = "0.4"
prost = "0.7"
snow = "0.9"
socket2 = "0.3"
thiserror = "1"

[dev-dependencies]
nom = { version = "6", default-features = false, features = ["std"] }
