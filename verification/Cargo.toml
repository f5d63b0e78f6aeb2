[package]
name = "variable_binding"
version = "0.1.0"
edition = "2021"
publish = false

[dependencies]
edgedb-protocol = "=0.5.0"
uuid = "1"
anyhow = "=1.0.104"
serde = { version = "=1.0.229", features = ["derive"] }
serde_json = "=1.0.154"
serde_path_to_error = "=0.1.20"
