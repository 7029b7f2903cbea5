[package]
name = "hstr"
version = "0.1.0"
edition = "2021"
publish = false

[dependencies]
anyhow = "*"
ascii = "*"
base64 = "*"
cargo_metadata = "*"
clap = { version = "*", features = ["derive"] }
dotenv = "*"
futures = "*"
ignore = "*"
once_cell = "*"
rand = "*"
rayon = "*"
reqwest = { version = "*", default-features = false, features = ["rustls-tls", "json"] }
schemars = "*"
serde = "*"
serde_derive = "*"
serde_json = "*"
serde_yaml = "*"
tokio = { version = "*", features = ["rt-multi-thread", "macros"] }
toml_edit = "*"
tracing = "*"
tracing-subscriber = "*"
