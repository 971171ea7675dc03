[package]
name = "tyutyun_shop"
version = "0.1.0"
edition = "2021"
publish = false

[dependencies]
dotenvy = "0.15"
eyre = "0.6"
lettre = "0.11"
rocket = { version = "0.5", features = ["json"] }
sqlx = { version = "0.8", default-features = false, features = ["postgres", "runtime-tokio"] }
tokio = { version = "1", features = ["macros", "rt-multi-thread"] }
