[package]
name = "type-metadata"
version = "0.1.0"
edition = "2021"
publish = false

[dependencies]
serde = { version = "1", features = ["derive"] }
derive_more = "0.99"
