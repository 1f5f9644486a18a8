[package]
name = "cargo-optic"
version = "0.1.0"
edition = "2021"
publish = false

[dependencies]
blake3 = "1"
cargo_metadata = "*"
fs2 = "0.4"
rustc-demangle = "0.1"
serde = { version = "1", features = ["derive"] }
serde_json = "1"
serde_yaml = "0.9"
sha2 = "0.10"
snafu = "*"
tempfile = "3"
thiserror = "2"
walkdir = "2"
