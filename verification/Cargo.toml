[package]
name = "dart_dist"
version = "0.1.0"
edition = "2021"
publish = false

[dependencies]
serde_yml = "*"
serde = { version = "*", features = ["derive"] }
extism-pdk = "*"
proto_pdk = "*"
schematic = "*"
