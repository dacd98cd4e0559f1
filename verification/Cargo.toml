[package]
name = "podci"
version = "0.1.0"
edition = "2021"
publish = false

[dependencies]
anyhow = "*"
blake3 = "*"
chrono = "*"
clap = { version = "*", features = ["derive", "env"] }
etcetera = "*"
flate2 = "*"
rand = "*"
serde = { version = "*", features = ["derive"] }
serde_json = "*"
tar = "*"
tokio = { version = "*", features = ["rt", "process", "fs", "time", "io-util"] }
toml = "*"
which = "*"
