[package]
name = "cargo_member"
version = "0.1.0"
edition = "2021"
publish = false

[dependencies]
anyhow = "*"
camino = "*"
pathdiff = { version = "*", features = ["camino"] }
semver = "*"
serde = { version = "*", features = ["derive"] }
toml = "*"
toml_edit = "*"
