[package]
name = "gateway_core"
version = "0.1.0"
edition = "2021"
publish = false

[dependencies]
actix-web = "4"
actix-cors = "*"
actix-files = "*"
awc = "3"
futures = "0.3"
env_logger = "*"
log = "0.4"
dotenv = "*"

[dev-dependencies]
querystring = "*"
