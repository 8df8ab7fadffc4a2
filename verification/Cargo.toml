[package]
name = "erdnuss_comms"
version = "0.1.0"
edition = "2021"
publish = false

[dependencies]
postcard-rpc = "=0.6.0"
postcard = { version = "=1.0.10", features = ["use-std"] }
serde = "=1.0.229"
rand_core = "=0.6.4"
rand_chacha = "=0.3.1"
futures = "=0.3.34"
