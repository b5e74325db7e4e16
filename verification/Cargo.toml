[package]
name = "ruma_api_schema"
version = "0.1.0"
edition = "2021"
publish = false

[dependencies]
js_int = "0.2"
proc-macro2 = "1"
quote = "1"
serde = { version = "1", features = ["derive"] }
serde_json = { version = "1", features = ["raw_value"] }
syn = { version = "2", features = ["full"] }
