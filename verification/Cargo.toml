[package]
name = "derse"
version = "0.1.0"
edition = "2021"
publish = false

[dependencies]
compact_str = "*"
proc-macro2 = "1"
quote = "1"
syn = "2"
thiserror = "1"
tinyvec = { version = "1", features = ["alloc"] }
