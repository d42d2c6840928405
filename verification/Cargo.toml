[package]
name = "dateranges"
version = "0.1.0"
edition = "2021"
publish = false

[dependencies]
chrono = { version = "0.4", default-features = false, features = ["std"] }
bigdecimal = { version = "0.4", default-features = false, features = ["std"] }
num-traits = "0.2"
