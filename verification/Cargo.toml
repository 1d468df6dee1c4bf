[package]
name = "payments_engine"
version = "0.1.0"
edition = "2021"
publish = false

[dependencies]
clap = "*"
crossbeam-channel = "*"
csv = "*"
num_cpus = "*"
rust_decimal = "*"
serde = { version = "*", features = ["derive"] }
