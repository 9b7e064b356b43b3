[package]
name = "zipper"
version = "0.1.0"
edition = "2021"
publish = false

[dependencies]
zip = "*"
zip-extensions = "*"
toml = "*"
chrono = "*"
clap = { version = "*", features = ["cargo"] }
log = "*"
log4rs = "*"
tokio = { version = "*", features = ["macros", "rt"] }
sqlx = { version = "*", default-features = false, features = ["runtime-tokio", "postgres"] }
