[package]
name = "aether"
version = "0.1.0"
edition = "2021"
publish = false

[dependencies]
bitflags = "2"
serde = { version = "1", features = ["derive"] }
thiserror = "1"
