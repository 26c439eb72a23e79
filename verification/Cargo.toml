[package]
name = "webapp"
version = "0.1.0"
edition = "2021"
publish = false

[dependencies]
jsonwebtoken = "8"
serde_json = { version = "1", features = ["raw_value"] }
uuid = { version = "1", features = ["v4"] }
url = "2"
serde = { version = "1", features = ["derive"] }
toml = "0.5"
anyhow = "1"
thiserror = "1"
log = "0.4"
env_logger = "0.9"
clap = "3"
dotenv = "0.15"
num_cpus = "1"
openssl = "0.10"
r2d2 = "0.8"
diesel = { version = "2", features = ["postgres", "r2d2"] }
actix = "0.13"
actix-cors = "0.7"
actix-web = { version = "4", default-features = false, features = ["macros", "openssl"] }
