[package]
name = "newsletter"
version = "0.1.0"
edition = "2021"
publish = false

[dependencies]
uuid = { version = "*", features = ["v4"] }
chrono = { version = "*", default-features = false, features = ["clock"] }
tokio = { version = "*", features = ["rt-multi-thread", "macros"] }
actix-web = { version = "*", default-features = false, features = ["macros"] }
sqlx = { version = "*", default-features = false, features = ["runtime-tokio-rustls", "postgres", "migrate", "uuid", "chrono"] }
secrecy = "*"
serde = { version = "*", features = ["derive"] }
tracing = "*"
