[package]
name = "joypage"
version = "0.1.0"
edition = "2021"
publish = false

[dependencies]
serde = "1"
serde_json = "1"
hyper = "0.10"
time = "0.1"
