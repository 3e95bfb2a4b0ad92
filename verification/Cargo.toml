[package]
name = "websurfx"
version = "0.1.0"
edition = "2021"
publish = false

[dependencies]
actix-files = "0.6"
actix-web = { version = "4", default-features = false, features = ["macros"] }
clap = { version = "4", features = ["derive"] }
env_logger = "0.10"
handlebars = "4"
log = "0.4"
