[package]
name = "rayslash-module-manifest"
version = "1.0.1"
edition = "2021"
publish = false

[dependencies]
semver = { version = "1", features = ["serde"] }
serde = { version = "1", features = ["derive"] }
toml = "0.8"
thiserror = "1"
clap = { version = "4", features = ["derive"] }
base64 = "0.22"
ed25519-dalek = { version = "2", features = ["rand_core"] }
rand = "0.8"
sha2 = "0.10"
tar = "0.4"
walkdir = "2"
zstd = "0.13"
