[package]
name = "apollo_mcp_server"
version = "0.1.0"
edition = "2021"
publish = false

[dependencies]
apollo-compiler = "1"
http = "1"
regex = "1"
rmcp = "*"
schemars = "1"
serde = { version = "1", features = ["derive"] }
serde_json = { version = "1", features = ["preserve_order"] }
tokio = { version = "1", features = ["sync"] }
tracing = "0.1"

[dev-dependencies]
jsonschema = { version = "*", default-features = false }
