[package]
name = "provenance"
version = "0.1.0"
edition = "2021"
publish = false

[dependencies]
clap = { version = "=4.6.7", features = ["derive"] }
ethers = { version = "=2.0.14", default-features = false }
eyre = "=0.6.14"
tokio = { version = "=1.53.2", features = ["macros", "rt-multi-thread"] }
which = "=8.0.6"
