[package]
name = "ar_row"
version = "0.1.0"
edition = "2021"
publish = false

[dependencies]
arrow = { version = "*", default-features = false }
json = "*"
proc-macro2 = "*"
quote = "*"
syn = "*"
thiserror = "*"
