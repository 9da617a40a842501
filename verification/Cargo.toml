[package]
name = "porcelain"
version = "0.1.0"
edition = "2021"
publish = false

[dependencies]
atty = "0.2"
clap = { version = "=3.0.0-beta.2", default-features = false, features = ["std", "cargo", "yaml"] }
yaml-rust = "0.4"
