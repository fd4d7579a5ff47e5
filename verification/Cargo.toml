[package]
name = "fst-file"
version = "0.1.0"
edition = "2021"
publish = false

[dependencies]
flate2 = "1"
lz4_flex = "0.11"
serde = { version = "1", features = ["derive"] }
serde_json = "1"
thiserror = "1"
tracing = "0.1"
tracing-subscriber = "0.3"
tracing-error = "0.2"
color-eyre = "0.6"
clap = { version = "4", features = ["derive"] }
termion = "*"
