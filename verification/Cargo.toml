[package]
name = "bunner_cors_rs"
version = "0.1.0"
edition = "2021"
publish = false

[dependencies]
indexmap = "2"
regex-automata = "0.4"
thiserror = "2"
