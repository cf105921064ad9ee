[package]
name = "themefox-manager"
version = "0.9.11"
edition = "2021"
publish = false

[dependencies]
serde_json = "1"
byteorder = "1"
clap = "2"
colored = "2"
dialoguer = { version = "0.10", default-features = false }
dirs = "3"
zip = { version = "0.5", default-features = false, features = ["deflate"] }
git2 = { version = "0.13", default-features = false }
