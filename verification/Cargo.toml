[package]
name = "agents"
version = "0.1.0"
edition = "2021"
publish = false

[dependencies]
serde = { version = "1", features = ["derive"] }
serde_json = "1"
rand = "0.8"
rand_distr = "0.4"
rayon = "1"
parking_lot = "0.12"
smallvec = "1"
