[package]
name = "modlua"
version = "0.1.0"
edition = "2021"
publish = false

[dependencies]
regex = "*"
zip = { version = "*", default-features = false }
mlua = { version = "*", features = ["lua54", "vendored"] }
gc-arena = "*"
anyhow = "*"
