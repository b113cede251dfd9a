[package]
name = "fingerprint_fhe"
version = "0.1.0"
edition = "2021"
publish = false

[dependencies]
tfhe = { version = "=1.8.1", default-features = false, features = ["boolean"] }
chrono = "=0.4.45"
serde = { version = "=1.0.229", features = ["derive"] }
serde_json = "=1.0.151"
bincode = "=1.3.3"
rand = "=0.8.8"
image = { version = "=0.25.10", default-features = false, features = ["tiff", "png", "jpeg"] }
