[package]
name = "rate_limit"
version = "0.1.0"
edition = "2021"
publish = false

[dependencies]
clap = { version = "4", features = ["derive"] }
governor = { version = "0.6", default-features = false, features = ["std"] }
nonzero_ext = "0.3"
tokio = { version = "1", features = ["fs", "io-util", "macros", "rt-multi-thread"] }
