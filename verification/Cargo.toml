[package]
name = "umdb"
version = "0.1.0"
edition = "2021"
publish = false

[dependencies]
regex = "*"
actix-web = "*"
actix-cors = "*"
tokio = { version = "*", features = ["macros", "process", "rt-multi-thread", "sync", "time"] }
serde = { version = "*", features = ["derive"] }
serde_json = "*"
env_logger = "*"
futures = "*"
pathsearch = "*"
