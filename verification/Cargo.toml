[package]
name = "diesel"
version = "0.1.0"
edition = "2021"
publish = false

[dependencies]
syn = { version = "=1.0.109", features = ["full", "extra-traits"] }
proc-macro2 = "=1.0.107"
quote = "=1.0.47"
proc-macro-error = "=1.0.4"
bigdecimal = "0.4"
