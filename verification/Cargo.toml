[package]
name = "trace_stats"
version = "0.1.0"
edition = "2021"
publish = false

[dependencies]
cpp_demangle = "*"
serde = { version = "*", features = ["derive"] }
serde_json = "*"
walkdir = "*"
directories = "*"
