[package]
name = "cmdlink"
version = "0.1.0"
edition = "2021"
publish = false

[dependencies]
clap = { version = "4", features = ["derive"] }
dirs = "*"
serde = { version = "1", features = ["derive"] }
tabled = "*"
thiserror = "*"
toml = "*"
tracing = "0.1"
tracing-subscriber = "0.3"
