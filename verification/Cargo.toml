[package]
name = "quiverfs"
version = "0.1.0"
edition = "2021"
publish = false

[dependencies]
arrow = { version = "*", default-features = false, features = ["ipc"] }
clap = { version = "*", features = ["derive"] }
fuser = "*"
libc = "*"
parquet = { version = "*", default-features = false }
serde_json = "*"
walkdir = "*"
