[package]
name = "jsgraph"
version = "0.1.0"
edition = "2021"
publish = false

[dependencies]
semver = "=1.0.28"
petgraph = "=0.8.3"
clean-path = "=0.2.1"
serde = { version = "1", features = ["derive"] }
serde_json = "1"
serde_yaml = "=0.9.34"
oxc_resolver = "=11.24.3"
oxc_parser = "=0.139.0"
oxc_ast = "=0.139.0"
oxc_span = "=0.139.0"
oxc_allocator = "=0.139.0"
lightningcss = "=1.0.0-alpha.72"
