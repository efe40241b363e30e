[package]
name = "txprobe"
version = "0.1.0"
edition = "2021"
publish = false

[dependencies]
ethers = { version = "2", default-features = false }
tokio = { version = "1", features = ["macros", "rt-multi-thread"] }
dotenvy = "0.15"
eyre = "0.6"
