[package]
name = "sqlx_pg_copy"
version = "0.1.0"
edition = "2021"
publish = false

[dependencies]
sqlx = { version = "*", default-features = false, features = ["postgres"] }
thiserror = "2"
