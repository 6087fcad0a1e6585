[package]
name = "crypsinous"
version = "0.1.0"
edition = "2021"
publish = false

[dependencies]
blake3 = "1"
bs58 = "0.4"
pasta_curves = "0.5"
halo2_gadgets = "0.5"
incrementalmerkletree = "0.3"
rand = "0.8"
dashu = "0.2"
sled = "0.34"
clap = { version = "3.2", features = ["derive"] }
