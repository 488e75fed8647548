[package]
name = "screening"
version = "0.1.0"
edition = "2021"
publish = false

[dependencies]
alloy-primitives = "*"
clap = { version = "*", features = ["derive"] }
derive_more = { version = "*", features = ["display"] }
tokio = { version = "*", features = ["macros", "rt-multi-thread", "sync", "time"] }
tonic = "*"
tracing = "*"
