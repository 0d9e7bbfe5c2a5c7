[package]
name = "run_cli"
version = "0.1.0"
edition = "2021"
publish = false

[dependencies]
strsim = "0.11"
clap = { version = "4", features = ["derive"] }
clap_complete = "4"
serde = { version = "1", features = ["derive"] }
serde_json = "1"
toml = "0.8"
