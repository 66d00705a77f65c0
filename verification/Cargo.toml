[package]
name = "libsy"
version = "0.1.0"
edition = "2021"
publish = false

[dependencies]
async-trait = "0.1"
futures = "0.3"
http = "1"
parking_lot = "0.12"
regex = "1"
serde_json = "1"
tracing = "0.1"
