[package]
name = "procgen"
version = "0.1.0"
edition = "2021"
publish = false

[dependencies]
flate2 = "1"
hashbrown = "*"
bincode = "1"
serde = { version = "1", features = ["derive"] }
rand = "0.8"
