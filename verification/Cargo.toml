[package]
name = "betacode"
version = "0.1.0"
edition = "2021"

[dependencies]
unicode-normalization = "0.1"
clap = { version = "4", features = ["derive"] }
log = "0.4"
pretty_env_logger = "0.5"

[dev-dependencies]
regex = "1"
