[package]
name = "dqk_parser"
version = "0.1.0"
edition = "2021"
publish = false

[dependencies]
clap = { version = "3", features = ["derive"] }
proc-macro2 = "1"
quote = "1"
serde = { version = "1", features = ["derive"] }
syn = "1"
