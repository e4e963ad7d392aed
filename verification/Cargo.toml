[package]
name = "nativepkg"
version = "0.1.0"
edition = "2021"
publish = false

[dependencies]
anyhow = "1"
ar = "0.9"
clap = { version = "4", features = ["derive"] }
flate2 = "1"
liblzma = "*"
md-5 = "*"
rpm = "0.27"
semver = "1"
serde = { version = "1", features = ["derive"] }
serde_json = "1"
sha2 = "*"
tar = "0.4"
thiserror = "2"
walkdir = "2"
zstd = "0.13"

[dev-dependencies]
debversion = "*"
rpm-version = "*"
