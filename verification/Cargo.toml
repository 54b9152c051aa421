[package]
name = "filite"
version = "0.1.0"
edition = "2021"
publish = false

[dependencies]
base64 = "*"
blake2 = "*"
chrono = "*"
dirs = "*"
num_cpus = "*"
serde = { version = "*", features = ["derive"] }
toml = "*"
