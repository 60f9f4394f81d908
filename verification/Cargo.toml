[package]
name = "jkl"
version = "0.1.0"
edition = "2021"
publish = false

[dependencies]
anyhow = "=1.0.104"
clap = { version = "=4.6.7", features = ["derive"] }
sqlx = { version = "=0.7.4", default-features = false, features = ["sqlite", "runtime-tokio", "migrate"] }
tokio = { version = "=1.54.1", features = ["macros", "rt-multi-thread"] }
