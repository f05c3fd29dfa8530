[package]
name = "authcore"
version = "0.1.0"
edition = "2021"
publish = false

[dependencies]
jsonwebtoken = { version = "=11.1.0", features = ["rust_crypto"] }
serde_json = "=1.0.151"
rust-argon2 = "=3.0.0"
uuid = { version = "=1.27.0", features = ["v4"] }
rand = "=0.10.3"
chrono = "=0.4.45"
