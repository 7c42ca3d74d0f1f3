[package]
name = "neoiot"
version = "0.1.0"
edition = "2021"
publish = false

[dependencies]
xid = "*"
reqwest = { version = "*", default-features = false, features = ["blocking", "json"] }
redis = "*"
serde_json = "*"
