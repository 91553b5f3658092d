[package]
name = "imbolc_core"
version = "0.1.0"
edition = "2021"
publish = false

[dependencies]
crossbeam-channel = "0.5"
dirs = "5"
hound = "3"
log = "0.4"
rosc = "0.10"
serde = { version = "1", features = ["derive"] }
serde_json = "1"
