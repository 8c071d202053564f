[package]
name = "proto_core"
version = "0.1.0"
edition = "2021"
publish = false

[dependencies]
lazy_static = "1"
log = "0.4"
strum = { version = "0.26", features = ["derive"] }
