[package]
name = "traffic_chronicle"
version = "0.1.0"
edition = "2021"
publish = false

[dependencies]
aes = "0.8"
anyhow = "1"
cbc = "0.1"
chrono = "0.4"
minreq = { version = "2", features = ["https"] }
rand = "0.8"
rust-argon2 = "1.0"
serde = { version = "1", features = ["derive"] }
serde_json = "1"
sha2 = "0.10"
