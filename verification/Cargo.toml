[package]
name = "oxtail"
version = "0.1.0"
edition = "2021"
publish = false

[dependencies]
ansi-parser = "*"
anyhow = "*"
atty = "*"
chrono = "*"
clap = { version = "*", features = ["derive"] }
crossbeam-channel = "*"
crossterm = "*"
notify = "*"
ratatui = { version = "*", features = ["termion"] }
regex = "*"
serde_json = "*"
strip-ansi-escapes = "*"
termion = "*"
unicode-width = "*"
