[package]
name = "abi_coder"
version = "0.1.0"
edition = "2021"
publish = false

[dependencies]
ethabi = "=18.0.0"
serde_json = "*"
