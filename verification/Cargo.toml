[package]
name = "voyeurs"
version = "0.1.0"
edition = "2021"
publish = false

[dependencies]
url = "*"
tokio = { version = "*", features = ["full"] }
clap = { version = "*", features = ["derive"] }
mpvipc = "*"
rsntp = "*"
tempfile = "*"
