[package]
name = "lode"
version = "0.2.1"
edition = "2021"
publish = false

[dependencies]
anyhow = "1"
clap = { version = "4", features = ["derive"] }
cliclack = "0.3"
dialoguer = { version = "0.11", default-features = false }
dirs = "6"
flate2 = "1"
indexmap = { version = "2", features = ["serde"] }
md5 = "0.7"
reqwest = { version = "0.12", default-features = false, features = ["blocking", "json", "rustls-tls"] }
semver = "1"
serde = { version = "1", features = ["derive"] }
serde_json = "1"
sha1 = "0.10"
sha2 = "0.10"
tar = { version = "0.4", default-features = false }
tempfile = "3"
toml = "0.8"
