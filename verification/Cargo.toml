[package]
name = "cyphers"
version = "0.1.0"
edition = "2021"
publish = false

[dependencies]
anyhow = "1"
clap = { version = "4", features = ["derive"] }
deunicode = "1"
rand = "0.8"
