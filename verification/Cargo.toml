[package]
name = "fx-core"
version = "0.1.0"
edition = "2021"
publish = false

[dependencies]
blake3 = "1"
rand = "0.10"
chrono = { version = "0.4", default-features = false, features = ["clock", "std"] }
argon2 = "0.5"
imara-diff = "0.1"
serde = { version = "1", features = ["derive"] }
serde_json = "1"
serde_yml = "*"
sqlx = { version = "0.8", default-features = false, features = ["runtime-tokio", "postgres", "chrono", "json", "macros"] }
