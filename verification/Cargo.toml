[package]
name = "response_rewrite"
version = "0.1.0"
edition = "2021"
publish = false

[dependencies]
anyhow = "=1.0.104"
async-trait = "=0.1.92"
bytes = "=1.9.0"
kafka-protocol = "=0.13.0"
serde = { version = "=1.0.229", features = ["derive"] }
shotover = "0.5"
tracing = "=0.1.44"
typetag = "=0.2.23"
