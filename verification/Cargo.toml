[package]
name = "record_store"
version = "0.1.0"
edition = "2021"
publish = false

[dependencies]
candid = "*"
ic-stable-structures = "*"
ic-cdk = "*"
serde = { version = "1", features = ["derive"] }
