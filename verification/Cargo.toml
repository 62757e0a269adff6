[package]
name = "sdbootutil_fs"
version = "0.1.0"
edition = "2021"
publish = false

[dependencies]
libbtrfs = { version = "=0.0.40", default-features = false }
tempfile = "=3.27.0"
