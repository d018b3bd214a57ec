[package]
name = "bandsnatch"
version = "0.1.0"
edition = "2021"
publish = false

[dependencies]
chrono = { version = "0.4", default-features = false, features = ["std"] }
clap = { version = "4", features = ["derive", "env"] }
crossbeam-utils = "0.8"
indicatif = "0.17"
shellexpand = "3"
