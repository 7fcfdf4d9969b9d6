[package]
name = "duui-ner"
version = "0.1.0"
edition = "2021"
publish = false

[dependencies]
actix-files = "0.6"
actix-web = { version = "4", default-features = false, features = ["macros", "compress-gzip"] }
anyhow = "1"
clap = { version = "4", features = ["derive"] }
env_logger = "0.10"
rust-bert = "0.21"
serde = { version = "1", features = ["derive"] }
tch = "0.13"
utoipa = { version = "3", features = ["actix_extras"] }
utoipa-swagger-ui = { version = "3", features = ["actix-web"] }
