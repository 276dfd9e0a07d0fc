[package]
name = "user_auth"
version = "0.1.0"
edition = "2021"
publish = false

[dependencies]
argon2rs = "=0.2.5"
rand = "=0.8.8"
jsonwebtoken = "=9.3.1"
serde_json = "=1.0.154"
time = "=0.1.45"
dotenv = "=0.15.0"
serde = { version = "=1.0.229", features = ["derive"] }
rocket = { version = "0.5", features = ["json"] }
rocket_cors = "0.6"
diesel = { version = "1.4", features = ["postgres"] }
r2d2 = "0.8"
r2d2-diesel = "1.0"
