[package]
name = "smoltasks"
version = "0.1.0"
edition = "2021"
publish = false

[dependencies]
scrypt = "0.11"
sha2 = "0.10"
hex = "0.4"
getrandom = "0.2"
chrono = { version = "0.4", features = ["serde"] }
serde = { version = "1", features = ["derive"] }
serde_json = "1"
warp = "0.3"
tokio = { version = "1", features = ["macros", "rt-multi-thread"] }
dotenv = "0.15"
