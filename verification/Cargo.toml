[package]
name = "forc_pkg"
version = "0.1.0"
edition = "2021"
publish = false

[dependencies]
url = "*"
git2 = { version = "*", default-features = false }
toml = "*"
serde = { version = "*", features = ["derive"] }
