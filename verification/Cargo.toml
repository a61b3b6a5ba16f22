[package]
name = "who_you_gonna_call"
version = "0.1.0"
edition = "2021"
publish = false

[dependencies]
axum = "0.7"
reqwest = { version = "0.12", default-features = false, features = ["json"] }
serde = { version = "1", features = ["derive"] }
snafu = "0.8"
tokio = { version = "1", features = ["macros", "rt-multi-thread", "signal", "net"] }
