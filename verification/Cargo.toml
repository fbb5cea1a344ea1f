[package]
name = "zexp"
version = "0.1.0"
edition = "2021"
publish = false

[dependencies]
toml = "0.8"
clap = { version = "4", features = ["derive"] }
log = "0.4"
simplelog = "0.12"
rayon = "1"
wait-timeout = "0.2"
