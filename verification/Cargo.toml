[package]
name = "gdrive-search"
version = "0.1.0"
edition = "2021"
publish = false

[dependencies]
chrono = { version = "0.4", features = ["serde"] }
dirs = "4"
google-drive3 = "~3.0"
hyper = { version = "0.14", features = ["client", "http1", "http2", "runtime", "tcp"] }
hyper-rustls = "0.22"
serde = { version = "1", features = ["derive"] }
serde_json = "1"
skim = "0.9"
tokio = { version = "1", features = ["macros", "rt-multi-thread"] }
webbrowser = "0.5"
yup-oauth2 = "6"
