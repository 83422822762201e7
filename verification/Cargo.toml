[package]
name = "isc"
version = "0.1.0"
edition = "2021"
publish = false

[dependencies]
sha2 = "0.10"
sha3 = "0.10"
clap = { version = "4", features = ["derive"] }
tokio = { version = "1", features = ["rt-multi-thread", "fs", "io-util", "sync", "macros"] }
futures = "0.3"
rayon = "1"
color-eyre = "0.6"
