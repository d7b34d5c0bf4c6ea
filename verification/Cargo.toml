[package]
name = "cotim"
version = "0.1.0"
edition = "2021"
publish = false

[dependencies]
anyhow = "1"
clap = { version = "4", features = ["derive"] }
prettyplease = "0.2"
sv-parser = "0.13"
syn = { version = "2", features = ["full"] }
