[package]
name = "redscript_vm"
version = "0.1.0"
edition = "2021"
publish = false

[dependencies]
anyhow = "1"
colored = "2"
intmap = "1"
itertools = "0.10"
rand = "0.8"
rustyline = "12"
serde = { version = "1", features = ["derive"] }
thiserror = "1"
toml = "0.7"
walkdir = "2"
