[package]
name = "mcp_inventory"
version = "0.1.0"
edition = "2021"
publish = false

[dependencies]
chrono = { version = "0.4", default-features = false, features = ["clock", "std"] }
uuid = { version = "1", features = ["v4"] }
serde = { version = "1", features = ["derive"] }
serde_json = "1"
rmcp = { version = "*", features = ["server", "macros"] }
reqwest = { version = "0.12", default-features = false, features = ["json"] }
