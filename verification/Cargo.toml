[package]
name = "ucrun"
version = "0.1.0"
edition = "2021"
publish = false

[dependencies]
anyhow = "*"
clap = { version = "4", features = ["derive"] }
custom_logger = "*"
liboci-cli = "*"
oci-spec = "*"
serde = { version = "1", features = ["derive"] }
serde_json = "1"
