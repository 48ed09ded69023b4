[package]
name = "rust_wget"
version = "0.1.0"
edition = "2021"
publish = false

[dependencies]
anyhow = "1"
clap = { version = "4", features = ["derive"] }
thiserror = "1"

[dev-dependencies]
unicase = "2"
