[package]
name = "rbac"
version = "0.1.0"
edition = "2021"
publish = false

[dependencies]
indradb-lib = "=5.0.0"
serde_json = "=1.0.151"
