[package]
name = "next_superjson"
version = "0.1.0"
edition = "2021"
publish = false

[dependencies]
swc_core = { version = "*", features = ["common", "ecma_ast", "ecma_utils", "ecma_visit"] }
serde = { version = "*", features = ["derive"] }
serde_json = "*"
