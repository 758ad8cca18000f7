[package]
name = "relmation"
version = "0.1.0"
edition = "2021"
publish = false

[dependencies]
futures = "0.1"
num = { version = "0.1", default-features = false }
relm = "0.9"
tokio-core = "0.1"
