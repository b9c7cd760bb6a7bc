[package]
name = "credential_trust"
version = "0.1.0"
edition = "2021"
publish = false

[dependencies]
libc = "0.2"
minicbor = { version = "*", features = ["derive", "std"] }
thiserror = "1"
tracing = "0.1"
