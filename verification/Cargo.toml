[package]
name = "keystream"
version = "0.1.0"
edition = "2021"
publish = false

[dependencies]
anyhow = "1"
clap = { version = "4", features = ["derive"] }
native-windows-gui = "1"
rand = "0.8"
ring = "0.17"
sha3 = "0.10"
tokio = { version = "1", features = ["fs", "macros", "rt-multi-thread"] }
