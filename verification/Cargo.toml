[package]
name = "sql_select_parser"
version = "1.0.0"
edition = "2021"
publish = false

[dependencies]
clap = { version = "4", features = ["derive"] }
thiserror = "1"

[dev-dependencies]
anyhow = "1"
