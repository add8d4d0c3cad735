[package]
name = "mdblog"
version = "0.1.0"
edition = "2021"
publish = false

[dependencies]
pulldown-cmark = "*"
toml = "*"
chrono = "*"
axum = "*"
tokio = { version = "*", features = ["rt-multi-thread", "macros", "net", "time"] }
tower-http = { version = "*", features = ["fs"] }
walkdir = "*"
tracing = "*"
tracing-subscriber = { version = "*", features = ["json"] }
