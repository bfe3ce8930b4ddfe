[package]
name = "rexec"
version = "0.5.0"
edition = "2021"
publish = false

[dependencies]
async-trait = "=0.1.92"
chrono = "=0.4.45"
clap = { version = "=4.6.7", features = ["derive"] }
nix = { version = "=0.31.3", features = ["fs", "process", "signal", "term", "user"] }
rust-mcp-sdk = { version = "=1.1.0", default-features = false, features = ["server", "macros", "stdio"] }
serde = { version = "=1.0.229", features = ["derive"] }
serde_json = "=1.0.154"
tokio = { version = "=1.54.1", features = ["rt-multi-thread"] }
