[package]
name = "memoryos_wiki_gen"
version = "0.1.0"
edition = "2021"
publish = false

[dependencies]
sha2 = "=0.10.9"
chrono = "=0.4.45"
petgraph = "=0.6.5"
tree-sitter = "=0.24.7"
tree-sitter-rust = "=0.23.3"
tree-sitter-python = "=0.23.6"
tree-sitter-java = "=0.23.5"
tree-sitter-typescript = "=0.23.2"
serde = { version = "=1.0.229", features = ["derive"] }
serde_json = "=1.0.154"
toml = "=0.8.23"
tera = { version = "=1.20.1", default-features = false }
ignore = "=0.4.34"
clap = { version = "=4.6.7", features = ["derive"] }
quick-xml = "0.36"
reqwest = { version = "0.12", default-features = false, features = ["blocking", "rustls-tls", "json"] }
urlencoding = "2"

[dev-dependencies]
tempfile = "=3.27.0"
