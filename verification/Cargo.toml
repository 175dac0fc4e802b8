[package]
name = "ping_engine"
version = "0.1.0"
edition = "2021"
publish = false

[dependencies]
regex = "1"
anyhow = "1"
log = "0.4"
