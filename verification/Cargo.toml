[package]
name = "js_workspace"
version = "0.1.0"
edition = "2021"
publish = false

[dependencies]
axoasset = { version = "*", features = ["json-serde"] }
camino = "*"
oro-common = "*"
oro-package-spec = "*"
