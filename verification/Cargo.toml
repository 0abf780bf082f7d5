[package]
name = "rustic_knights"
version = "0.1.0"
edition = "2021"
publish = false

[dependencies]
actix = "*"
actix-cors = "*"
actix-web = "*"
actix-web-actors = "*"
async-trait = "*"
bcrypt = "*"
chrono = "*"
dotenv = "*"
env_logger = "*"
futures = "*"
jsonwebtoken = "*"
log = "*"
serde = { version = "*", features = ["derive"] }
serde_json = "*"
uuid = { version = "*", features = ["v4"] }
