[package]
name = "cortex"
version = "0.1.0"
edition = "2021"

[dependencies]
libc = "0.2"
tracing = "0.1"

[dev-dependencies]
rand = "0.8"
