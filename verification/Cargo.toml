[package]
name = "algotrap"
version = "0.1.0"
edition = "2021"
publish = false

[dependencies]
chrono = { version = "0.4", default-features = false, features = ["std", "clock"] }
url = "2"
validator = "*"
serde = { version = "1", features = ["derive"] }
serde_json = "1"
tokio = { version = "1", features = ["macros", "rt-multi-thread", "fs"] }
reqwest = { version = "0.12", default-features = false, features = ["json"] }
futures = "0.3"
dotenv = "0.15"
envy = "0.4"
hmac = "0.12"
sha2 = "0.10"
hex = "0.4"
