[package]
name = "chord_rust"
version = "0.1.0"
edition = "2021"
publish = false

[dependencies]
tarpc = { version = "*", features = ["full"] }
tokio = { version = "1", features = ["full"] }
futures = "0.3"
rand = "*"
log = "0.4"
serde = { version = "1", features = ["derive"] }
