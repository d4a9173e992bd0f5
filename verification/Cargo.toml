[package]
name = "lsp_gpt"
version = "0.1.0"
edition = "2021"
publish = false

[dependencies]
serde = { version = "1", features = ["derive"] }
serde_json = "1"
lsp-server = "0.7"
lsp-types = "0.97"
reqwest = { version = "0.12", default-features = false, features = ["blocking", "rustls-tls"] }
env_logger = "0.11"
log = "0.4"
