[package]
name = "chhoto_url"
version = "0.1.0"
edition = "2021"
publish = false

[dependencies]
actix-files = "0.6"
actix-session = { version = "0.7", features = ["cookie-session"] }
actix-web = { version = "4", default-features = false, features = ["macros", "cookies", "compress-gzip"] }
dotenv = "0.15"
env_logger = "0.10"
rand = "0.8"
rusqlite = { version = "0.29", features = ["bundled"] }
