[package]
name = "secure_voting_core"
version = "0.1.0"
edition = "2021"
publish = false

[dependencies]
num-bigint = { version = "0.4", features = ["rand"] }
num-integer = "0.1"
rand = "0.8"
