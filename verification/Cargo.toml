[package]
name = "shocktrace"
version = "0.1.0"
edition = "2021"
publish = false

[dependencies]
rust_decimal = "1"
chrono = "0.4"
sha2 = "0.10"
serde = { version = "1", features = ["derive"] }
serde_json = "1"
toml = "0.8"
csv = "1"
thiserror = "1"
clap = { version = "4", features = ["derive"] }
chrono-tz = "0.10"
ureq = "2"
