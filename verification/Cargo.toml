[package]
name = "scriplets"
version = "0.1.0"
edition = "2021"
publish = false

[dependencies]
serde = { version = "1", features = ["derive"] }
mlua = { version = "*", features = ["lua54", "vendored"] }
