[package]
name = "resource_slot"
version = "0.1.0"
edition = "2021"
publish = false

[dependencies]
async-trait = "0.1"
log = "0.4"
serde = { version = "1", features = ["derive"] }
time = "0.3"
tokio = { version = "1", features = ["sync"] }
