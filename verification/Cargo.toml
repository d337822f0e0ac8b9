[package]
name = "fantasy"
version = "0.1.0"
edition = "2021"
publish = false

[dependencies]
rand = "*"
crossbeam-channel = "*"
clap = "*"
config = "*"
serde = { version = "*", features = ["derive"] }
app_dirs = "*"
dirs = "*"
