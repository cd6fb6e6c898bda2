[package]
name = "ohos_rs"
version = "0.1.0"
edition = "2021"
publish = false

[dependencies]
anyhow = "1"
cargo_metadata = "*"
fs_extra = "1"
serde_json = "1"
sha2 = "0.10"
version-compare = "0.2"
