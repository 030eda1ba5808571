[package]
name = "corelane_proof"
version = "0.1.0"
edition = "2021"
publish = false

[dependencies]
bitcoin = "0.32"
serde = { version = "1", features = ["derive"] }
ciborium = "0.2"
hex = "0.4"
alloy-primitives = { version = "*", features = ["serde"] }
risc0-zkvm = { version = "*", default-features = false }
