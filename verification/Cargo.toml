[package]
name = "bass_trainer"
version = "0.1.0"
edition = "2021"
publish = false

[dependencies]
anyhow = "1"
cpal = "*"
crossbeam-channel = "0.5"
crossterm = "*"
directories = "*"
pitch-detection = "*"
rand = "0.8"
ratatui = "*"
ringbuf = "0.4"
serde = { version = "1", features = ["derive"] }
serde_json = "1"
