[package]
name = "emerald_tools"
version = "0.1.0"
edition = "2021"
publish = false

[dependencies]
arrayvec = "0.7"
convert_case = "*"
derive_more = { version = "1", features = ["add", "mul", "constructor", "try_from"] }
serde = { version = "1", features = ["derive"] }
serde_json = "1"
anyhow = "1"
tree-sitter = "*"
tree-sitter-cpp = "*"
streaming-iterator = "*"
