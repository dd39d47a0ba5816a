[package]
name = "postgres_notify"
version = "0.2.0"
edition = "2021"
publish = false

[dependencies]
futures = "0.3"
log = "0.4"
tokio = { version = "1", features = ["rt-multi-thread", "macros"] }
tokio-postgres = "0.7"
