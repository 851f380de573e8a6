[package]
name = "cc"
version = "1.0.0"
edition = "2021"
publish = false

[dependencies]
jobserver = "0.1"
libc = "0.2"
serde = { version = "1", features = ["derive"] }
serde_json = "1"
tinyjson = "2"
