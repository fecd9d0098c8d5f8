[package]
name = "zincati"
version = "0.1.0"
edition = "2021"
publish = false

[dependencies]
anyhow = "=1.0.104"
chrono = { version = "=0.4.45", default-features = false, features = ["std", "clock"] }
fn-error-context = "=0.2.1"
liboverdrop = "=0.0.4"
log = "=0.4.34"
ordered-float = { version = "=3.9.2", features = ["serde"] }
serde = { version = "=1.0.229", features = ["derive"] }
toml = "=0.5.11"
tzfile = "0.1"
