[package]
name = "leftwm_theme"
version = "0.1.0"
edition = "2021"
publish = false

[dependencies]
clap = { version = "=3.2.25", features = ["derive"] }
colored = "=2.2.0"
fuzzy-matcher = "=0.3.7"
git2 = { version = "=0.18.3", default-features = false, features = ["https"] }
leftwm-core = "=0.5.5"
log = "=0.4.34"
pretty_env_logger = "=0.4.0"
reqwest = { version = "=0.11.27", features = ["blocking"] }
ron = "=0.8.1"
semver = "=1.0.28"
serde = { version = "=1.0.229", features = ["derive"] }
toml = "=0.5.11"
url = "=2.5.8"
xdg = "=2.5.2"
