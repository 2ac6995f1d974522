[package]
name = "silent_pen"
version = "0.1.0"
edition = "2021"
publish = false

[dependencies]
aes-gcm = "0.10"
base64 = "0.22"
blake3 = { version = "1", features = ["pure"] }
rand_core = { version = "0.9", features = ["os_rng"] }
