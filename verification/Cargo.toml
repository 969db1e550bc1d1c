[package]
name = "infi_erp"
version = "0.1.0"
edition = "2021"
publish = false

[dependencies]
uuid = { version = "*", features = ["v4"] }
sqlx = { version = "*", default-features = false, features = ["postgres", "runtime-tokio", "uuid"] }
tokio = { version = "*", features = ["macros", "rt-multi-thread", "net"] }
actix-web = "*"
serde = { version = "*", features = ["derive"] }
serde-xml-rs = "*"
config = "*"
tracing = "*"
tracing-subscriber = "*"
anyhow = "*"
