[package]
name = "yugolang"
version = "0.1.0"
edition = "2021"
publish = false

[dependencies]
peek-again = "*"
clap = { version = "4", features = ["derive"] }
proc-macro2 = "1"
quote = "1"
syn = "2"
