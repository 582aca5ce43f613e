[package]
name = "mco"
version = "0.1.0"
edition = "2021"
publish = false

[dependencies]
time = { version = "0.3", features = ["std", "formatting", "parsing", "local-offset"] }
num_cpus = "1"
