[package]
name = "wsdf"
version = "0.1.0"
edition = "2021"
publish = false

[dependencies]
epan-sys = "*"
syn = { version = "2", features = ["full", "extra-traits"] }
quote = "1"
proc-macro2 = "1"
