[package]
name = "balapatch"
version = "0.1.0"
edition = "2021"
publish = false

[dependencies]
zip = { version = "0.6", default-features = false, features = ["deflate"] }
fuzzy-matcher = "*"
rslua = "*"
anyhow = "*"
clap = { version = "*", features = ["derive"] }
inquire = "*"
indicatif = "*"
adb_client = "*"
zip-extract = "*"
which = "*"
java-locator = "*"
regex = "*"
once_cell = "*"
