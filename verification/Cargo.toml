[package]
name = "wkfl"
version = "0.1.0"
edition = "2021"
publish = false

[dependencies]
anyhow = "*"
base64 = "=0.22.1"
crossterm = "=0.29.0"
fuzzy-matcher = "=0.3.7"
home = "=0.5.12"
serde = { version = "*", features = ["derive"] }
serde_json = "*"
time = { version = "=0.3.55", features = ["std", "formatting", "parsing"] }
toml = "*"
tree-sitter = "=0.26.3"
tree-sitter-md = { version = "=0.5.3", features = ["parser"] }
ureq = { version = "=2.12.1", default-features = false, features = ["json"] }
url = "=2.5.8"
