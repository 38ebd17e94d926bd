[package]
name = "nixdoc"
version = "0.1.0"
edition = "2021"
publish = false

[dependencies]
rnix = "0.11"
rowan = "0.15"
clap = { version = "4", features = ["derive"] }
serde_json = "1"
