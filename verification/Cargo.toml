[package]
name = "fvm"
version = "0.1.0"
edition = "2021"
publish = false

[dependencies]
ciborium = "*"
minstant = "*"
cid = "*"
serde = { version = "*", features = ["derive"] }
serde_json = "*"
