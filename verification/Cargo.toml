[package]
name = "echo_bench"
version = "0.1.0"
edition = "2021"
publish = false

[dependencies]
tokio = { version = "*", features = ["rt-multi-thread", "macros", "sync", "time"] }
tonic = "*"
prost = "*"
h2 = "*"
async-stream = "*"
tokio-stream = "*"
clap = { version = "*", features = ["derive"] }
serde_json = "*"
