[package]
name = "worker_blog"
version = "0.1.0"
edition = "2021"
publish = false

[dependencies]
chrono = "=0.4.45"
console_error_panic_hook = "=0.1.7"
sailfish = "=0.8.3"
serde = { version = "=1.0.229", features = ["derive"] }
serde_json = "1"
worker = { version = "0.8.7", features = ["d1"] }
