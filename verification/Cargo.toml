[package]
name = "block_access_list"
version = "0.1.0"
edition = "2021"
publish = false

[dependencies]
alloy-eips = "*"
alloy-primitives = "*"
clap = { version = "*", features = ["derive"] }
eyre = "*"
revm = { version = "*", default-features = false, features = ["std"] }
thiserror = "*"
tokio = { version = "*", features = ["sync"] }
tracing = "*"
