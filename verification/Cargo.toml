[package]
name = "doh_cli"
version = "0.1.0"
edition = "2021"
publish = false

[dependencies]
base64 = "0.21"
bytes = "1"
clap = { version = "4", features = ["derive"] }
reqwest = { version = "0.11", features = ["blocking"] }
