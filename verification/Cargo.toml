[package]
name = "chess_hub"
version = "0.1.0"
edition = "2021"
publish = false

[dependencies]
actix = "=0.13.5"
actix-http = { version = "=3.18.12", features = ["ws"] }
actix-rt = "=2.15.0"
actix-web = { version = "=4.15.0", default-features = false, features = ["ws"] }
actix-web-actors = "=4.3.1"
dotenv = "=0.15.0"
env_logger = "=0.11.11"
log = "=0.4.34"
