[package]
name = "monitor_write"
version = "0.1.0"
edition = "2021"
publish = false

[dependencies]
base64 = "0.13"
inotify = { version = "0.9", default-features = false }
signal-hook = "0.1"
