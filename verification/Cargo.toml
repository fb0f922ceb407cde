[package]
name = "lunash"
version = "0.1.0"
edition = "2021"
publish = false

[dependencies]
regex = "*"
reqwest = { version = "*", default-features = false, features = ["blocking"] }
arboard = "*"
mlua = { version = "*", features = ["lua54", "vendored"] }
clap = { version = "*", features = ["derive"] }
directories = "*"
