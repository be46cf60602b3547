[package]
name = "rl_auth"
version = "0.1.0"
edition = "2021"
publish = false

[dependencies]
jsonwebtoken = "9"
serde_json = "1"
bcrypt = "0.15"
uuid = { version = "1", features = ["v4"] }
chrono = "0.4"
serde = { version = "1", features = ["derive"] }
actix-web = "4"
actix-web-httpauth = "0.8"
anyhow = "1"
diesel = { version = "2", features = ["postgres", "r2d2", "uuid", "chrono"] }
dotenvy = "0.15"
env_logger = "0.10"
log = "0.4"
r2d2 = "0.8"
thiserror = "1"
