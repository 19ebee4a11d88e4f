[package]
name = "resume_picker"
version = "0.1.0"
edition = "2021"
publish = false

[dependencies]
chrono = "0.4"
serde_json = "1"
ratatui = "0.29"
crossterm = "0.28"
unicode-width = "0.2"
