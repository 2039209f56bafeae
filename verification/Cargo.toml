[package]
name = "cynic_parser"
version = "0.1.0"
edition = "2021"
publish = false

[dependencies]
indexmap = { version = "2", features = ["std"] }
proc-macro2 = "1"
quote = "1"
syn = "1"
