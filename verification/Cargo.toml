[package]
name = "convex_typegen"
version = "0.1.0"
edition = "2021"
publish = false

[dependencies]
oxc = { version = "=0.139.0", features = ["serialize"] }
serde_json = "=1.0.151"
