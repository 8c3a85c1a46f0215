[package]
name = "plonk_compat"
version = "0.1.0"
edition = "2021"
publish = false

[dependencies]
ark-bls12-377 = "0.4"
ark-ff = "0.4"
ark-poly = "0.4"
ark-poly-commit = "0.4"
ark-std = "0.4"
serde = { version = "1", features = ["derive"] }
serde_json = "1"
