[package]
name = "mcp_manager"
version = "0.1.0"
edition = "2021"
publish = false

[dependencies]
dirs = "*"
machine-uid = "*"
uuid = { version = "*", features = ["v4"] }
