[package]
name = "release_gate"
version = "0.1.0"
edition = "2021"
publish = false

[dependencies]
rocket = { version = "0.5", features = ["json", "secrets"] }
rocket_db_pools = { version = "*", features = ["mongodb"] }
rocket_csrf = "*"
reqwest = { version = "0.11", default-features = false, features = ["json"] }
tokio = { version = "1", features = ["sync", "rt-multi-thread", "macros"] }
serde = { version = "1", features = ["derive"] }
bson = { version = "2", features = ["chrono-0_4"] }
chrono = { version = "0.4", features = ["serde"] }
argon2 = "*"
