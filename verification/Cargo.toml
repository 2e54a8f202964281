[package]
name = "bonsai_relay"
version = "0.1.0"
edition = "2021"
publish = false

[dependencies]
ethabi = "=18.0.0"
risc0-zkvm = "=0.13.0"
ethers = { version = "=2.0.14", default-features = false, features = ["abigen", "ws"] }
tokio = { version = "=1.54.1", features = ["macros", "rt-multi-thread", "sync"] }
