[package]
name = "pumpkin"
version = "0.1.0"
edition = "2021"
publish = false

[dependencies]
ash = "0.38"
crossbeam = "0.8"
dashmap = "6"
libc = "0.2"
rand = "*"
rustc-hash = "2"
serde = { version = "1", features = ["derive"] }
thiserror = "2"
tokio = { version = "1", features = ["sync"] }
