[package]
name = "coral"
version = "0.1.0"
edition = "2021"
publish = false

[dependencies]
sha2 = "0.10"
ark-ff = "0.5"
ark-bn254 = "0.5"
ark-serialize = "0.5"
ark-relations = "0.5"
serde = { version = "1", features = ["derive"] }
serde_with = "3"
bincode = "1"
clap = { version = "4", features = ["derive"] }
csv = "1"
anyhow = "1"
