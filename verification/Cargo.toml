[package]
name = "stick"
version = "0.2.1"
edition = "2021"
publish = false

[dependencies]
anyhow = "1"
chrono = "0.4"
clap = { version = "4", features = ["derive"] }
crossterm = "0.28"
dirs = "5"
flate2 = "1"
notify = "6"
ratatui = "0.29"
serde = { version = "1", features = ["derive"] }
serde_json = "1"
shellexpand = "3"
tracing = "0.1"
tracing-appender = "0.2"
tracing-subscriber = { version = "0.3", features = ["env-filter"] }
unicode-normalization = "0.1"
walkdir = "2"
