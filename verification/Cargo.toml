[package]
name = "attestation"
version = "0.1.0"
edition = "2021"
publish = false

[dependencies]
openssl = "=0.10.82"
serde = { version = "=1.0.229", features = ["derive"] }
thiserror = "=2.0.21"
tokio = { version = "=1.54.1", features = ["rt", "rt-multi-thread"] }
