[package]
name = "json_treemap"
version = "0.1.0"
edition = "2021"
publish = false

[dependencies]
anyhow = "*"
clap = { version = "*", features = ["derive"] }
colored = "*"
human_format = "*"
serde_json = { version = "*", features = ["preserve_order"] }
term_size = "*"
thousands = "*"
