[package]
name = "bacon"
version = "0.1.0"
edition = "2021"
publish = false

[dependencies]
anyhow = "=1.0.104"
clap = { version = "=4.6.7", features = ["derive"] }
crokey = "=1.5.1"
directories-next = "=2.0.0"
lazy-regex = "=3.6.2"
serde = { version = "=1.0.229", features = ["derive"] }
serde_json = "=1.0.154"
termimad = "=0.35.5"
toml = "*"
