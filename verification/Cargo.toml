[package]
name = "baste"
version = "0.1.0"
edition = "2021"
publish = false

[dependencies]
actix-multipart = { version = "*", default-features = false }
actix-web = { version = "*", default-features = false, features = ["macros", "compress-gzip"] }
anyhow = "*"
chbs = "*"
envconfig = "*"
futures = "*"
log = "*"
pretty_env_logger = "*"
tokio = { version = "*", features = ["macros", "rt-multi-thread"] }
validator = { version = "*", features = ["derive"] }
