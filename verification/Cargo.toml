[package]
name = "collection_access"
version = "0.1.0"
edition = "2021"
publish = false

[dependencies]
diesel = { version = "1.4", features = ["sqlite"] }
serde_json = "1"
uuid = { version = "1", features = ["v4"] }
