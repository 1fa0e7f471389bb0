[package]
name = "hl7_ls"
version = "0.1.0"
edition = "2021"
publish = false

[dependencies]
hl7-parser = { version = "=0.3.0", features = ["chrono"] }
lsp-server = "=0.10.0"
lsp-types = "=0.97.0"
lsp-textdocument = "=0.5.0"
serde = { version = "=1.0.229", features = ["derive"] }
serde_json = "=1.0.154"
serde_with = "=3.24.0"
toml = "=0.8.23"
notify = "=6.1.1"
crossbeam-channel = "=0.5.17"
clap = { version = "=4.6.7", features = ["derive", "cargo"] }
color-eyre = "=0.6.5"
tracing = "=0.1.44"
tracing-subscriber = { version = "=0.3.23", features = ["chrono"] }
chrono = "=0.4.45"
rand = "=0.8.8"
