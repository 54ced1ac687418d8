[package]
name = "typst_tpl"
version = "0.1.0"
edition = "2021"
publish = false

[dependencies]
anyhow = "*"
chrono = "*"
clap = { version = "*", features = ["derive"] }
crossterm = "*"
inquire = "*"
log = "*"
semver = "*"
serde = { version = "*", features = ["derive"] }
serde_json = "*"
thiserror = "*"
