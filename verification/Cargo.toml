[package]
name = "tfhe_experiments"
version = "0.1.0"
edition = "2021"
publish = false

[dependencies]
tfhe = { version = "=1.6.5", default-features = false, features = ["boolean"] }
